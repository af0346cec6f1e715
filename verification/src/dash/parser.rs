//! MPD URL rewriting with hierarchical BaseURL resolution: the
//! effective base of each level feeds the next, BaseURL elements are
//! cleared, and SegmentTemplate URLs are proxied through the stitcher.

use vstd::prelude::*;
use crate::dash::model::{
    AdaptationSet, AdaptationSetV, Mpd, MpdV, Period, PeriodV, Representation, RepresentationV,
    SegmentTemplate, SegmentTemplateV,
};
use crate::text::{
    starts_with, str_starts_with, trim_end_char, trim_end_spec, trim_start_char, trim_start_spec,
};

verus! {

/// Compose a URL from a base and a relative path: an empty path keeps
/// the base, an absolute path replaces it, and anything else joins with
/// a single slash.
pub open spec fn compose_spec(base: Seq<char>, relative: Seq<char>) -> Seq<char> {
    if relative.len() == 0 {
        base
    } else if starts_with(relative, "http"@) {
        relative
    } else {
        trim_end_spec(base, '/') + "/"@ + trim_start_spec(relative, '/')
    }
}

/// Compose a URL from a base and a relative path, avoiding double
/// slashes.
pub fn compose_url(base: &str, relative: &str) -> (r: String)
    ensures
        r@ == compose_spec(base@, relative@),
{
    if relative.unicode_len() == 0 {
        return base.to_owned();
    }
    if str_starts_with(relative, "http") {
        return relative.to_owned();
    }
    let mut out = trim_end_char(base, '/').to_owned();
    out.append("/");
    out.append(trim_start_char(relative, '/'));
    out
}

/// The effective base of a level with the given BaseURL list.
pub open spec fn level_base(parent: Seq<char>, base_urls: Seq<Seq<char>>) -> Seq<char> {
    if base_urls.len() > 0 {
        compose_spec(parent, base_urls[0])
    } else {
        parent
    }
}

/// A proxied segment URL or template.
pub open spec fn proxy_seg(m: Seq<char>, sid: Seq<char>, base: Seq<char>, origin: Seq<char>)
    -> Seq<char> {
    base + "/stitch/"@ + sid + "/segment/"@ + m + "?origin="@ + origin
}

/// A SegmentTemplate with its media and initialization proxied.
pub open spec fn rw_template(
    t: SegmentTemplateV,
    sid: Seq<char>,
    base: Seq<char>,
    origin: Seq<char>,
) -> SegmentTemplateV {
    SegmentTemplateV {
        media: match t.media {
            Some(m) => Some(proxy_seg(m, sid, base, origin)),
            None => None,
        },
        initialization: match t.initialization {
            Some(i) => Some(proxy_seg(i, sid, base, origin)),
            None => None,
        },
        ..t
    }
}

/// A Representation rewritten under the adaptation base: its own
/// BaseURL refines the origin, its BaseURLs are cleared, and its
/// template is proxied.
pub open spec fn rw_rep(
    r: RepresentationV,
    sid: Seq<char>,
    base: Seq<char>,
    abase: Seq<char>,
) -> RepresentationV {
    let origin = level_base(abase, r.base_urls);
    RepresentationV {
        base_urls: Seq::empty(),
        segment_template: match r.segment_template {
            Some(t) => Some(rw_template(t, sid, base, origin)),
            None => None,
        },
        ..r
    }
}

/// An AdaptationSet rewritten under the period base: its own template,
/// when present, is proxied once against the set's effective base.
pub open spec fn rw_as(
    a: AdaptationSetV,
    sid: Seq<char>,
    base: Seq<char>,
    pbase: Seq<char>,
) -> AdaptationSetV {
    let abase = level_base(pbase, a.base_urls);
    AdaptationSetV {
        base_urls: Seq::empty(),
        segment_template: match a.segment_template {
            Some(t) => Some(rw_template(t, sid, base, abase)),
            None => None,
        },
        representations: a.representations.map_values(
            |r: RepresentationV| rw_rep(r, sid, base, abase),
        ),
        ..a
    }
}

/// A Period rewritten under the MPD base.
pub open spec fn rw_period(
    p: PeriodV,
    sid: Seq<char>,
    base: Seq<char>,
    mbase: Seq<char>,
) -> PeriodV {
    let pbase = level_base(mbase, p.base_urls);
    PeriodV {
        base_urls: Seq::empty(),
        adaptations: p.adaptations.map_values(|a: AdaptationSetV| rw_as(a, sid, base, pbase)),
        ..p
    }
}

/// An MPD with every level's URLs rewritten.
pub open spec fn rw_mpd(
    m: MpdV,
    sid: Seq<char>,
    base: Seq<char>,
    origin_base: Seq<char>,
) -> MpdV {
    let mbase = level_base(origin_base, m.base_urls);
    MpdV {
        base_urls: Seq::empty(),
        periods: m.periods.map_values(|p: PeriodV| rw_period(p, sid, base, mbase)),
        ..m
    }
}

/// Rewrite a SegmentTemplate in place.
fn rewrite_segment_template(
    template: &mut SegmentTemplate,
    session_id: &str,
    base_url: &str,
    origin: &str,
)
    ensures
        final(template)@ == rw_template(old(template)@, session_id@, base_url@, origin@),
{
    match &template.initialization {
        Some(initialization) => {
            let mut out = base_url.to_owned();
            out.append("/stitch/");
            out.append(session_id);
            out.append("/segment/");
            out.append(initialization.as_str());
            out.append("?origin=");
            out.append(origin);
            template.initialization = Some(out);
        },
        None => {},
    }
    match &template.media {
        Some(media) => {
            let mut out = base_url.to_owned();
            out.append("/stitch/");
            out.append(session_id);
            out.append("/segment/");
            out.append(media.as_str());
            out.append("?origin=");
            out.append(origin);
            template.media = Some(out);
        },
        None => {},
    }
}

/// Rewrite every URL of the MPD through the stitcher's proxy,
/// resolving BaseURLs hierarchically and clearing them.
pub fn rewrite_dash_urls(
    mpd: &mut Mpd,
    session_id: &str,
    base_url: &str,
    origin_base: &str,
) -> (r: Result<(), crate::errors::RitcherError>)
    ensures
        r is Ok,
        final(mpd)@ == rw_mpd(old(mpd)@, session_id@, base_url@, origin_base@),
{
    let ghost m0 = mpd@;
    // MPD-level base
    let mpd_base: String = if mpd.base_urls.len() > 0 {
        proof {
            assert(mpd@.base_urls[0] == mpd.base_urls@[0]@);
        }
        compose_url(origin_base, mpd.base_urls[0].as_str())
    } else {
        origin_base.to_owned()
    };
    mpd.base_urls = Vec::new();
    proof {
        assert(mpd@.base_urls =~= Seq::<Seq<char>>::empty());
        assert(mpd_base@ == level_base(origin_base@, m0.base_urls));
    }

    let ghost ps0 = mpd@.periods;
    let np = mpd.periods.len();
    let mut k: usize = 0;
    while k < np
        invariant
            np == ps0.len(),
            np == mpd@.periods.len(),
            0 <= k <= np,
            mpd_base@ == level_base(origin_base@, m0.base_urls),
            forall|j: int| k <= j < np ==> mpd@.periods[j] == ps0[j],
            forall|j: int| 0 <= j < k ==> mpd@.periods[j] == rw_period(
                ps0[j],
                session_id@,
                base_url@,
                mpd_base@,
            ),
            mpd@ == (MpdV { periods: mpd@.periods, base_urls: Seq::empty(), ..m0 }),
        decreases np - k,
    {
        proof {
            assert(mpd@.periods[k as int] == mpd.periods@[k as int]@);
        }
        let ghost pv = ps0[k as int];
        let ghost before_p = mpd@.periods;
        let period = &mut mpd.periods[k];
        rewrite_one_period(period, session_id, base_url, mpd_base.as_str());
        proof {
            assert(mpd@.periods =~= before_p.update(
                k as int,
                rw_period(pv, session_id@, base_url@, mpd_base@),
            ));
        }
        k += 1;
    }
    proof {
        assert(mpd@.periods =~= m0.periods.map_values(
            |p: PeriodV| rw_period(p, session_id@, base_url@, mpd_base@),
        ));
    }
    Ok(())
}

/// Rewrite one Period in place.
fn rewrite_one_period(period: &mut Period, session_id: &str, base_url: &str, mbase: &str)
    ensures
        final(period)@ == rw_period(old(period)@, session_id@, base_url@, mbase@),
{
    let ghost p0 = period@;
    let period_base: String = if period.base_urls.len() > 0 {
        proof {
            assert(period@.base_urls[0] == period.base_urls@[0]@);
        }
        compose_url(mbase, period.base_urls[0].as_str())
    } else {
        mbase.to_owned()
    };
    period.base_urls = Vec::new();
    proof {
        assert(period@.base_urls =~= Seq::<Seq<char>>::empty());
        assert(period_base@ == level_base(mbase@, p0.base_urls));
    }

    let ghost as0 = period@.adaptations;
    let na = period.adaptations.len();
    let mut a: usize = 0;
    while a < na
        invariant
            na == as0.len(),
            na == period@.adaptations.len(),
            0 <= a <= na,
            period_base@ == level_base(mbase@, p0.base_urls),
            forall|j: int| a <= j < na ==> period@.adaptations[j] == as0[j],
            forall|j: int| 0 <= j < a ==> period@.adaptations[j] == rw_as(
                as0[j],
                session_id@,
                base_url@,
                period_base@,
            ),
            period@ == (PeriodV {
                adaptations: period@.adaptations,
                base_urls: Seq::empty(),
                ..p0
            }),
        decreases na - a,
    {
        proof {
            assert(period@.adaptations[a as int] == period.adaptations@[a as int]@);
        }
        let ghost av = as0[a as int];
        let ghost before_a = period@.adaptations;
        let adaptation = &mut period.adaptations[a];
        rewrite_one_adaptation(adaptation, session_id, base_url, period_base.as_str());
        proof {
            assert(period@.adaptations =~= before_a.update(
                a as int,
                rw_as(av, session_id@, base_url@, period_base@),
            ));
        }
        a += 1;
    }
    proof {
        assert(period@.adaptations =~= p0.adaptations.map_values(
            |x: AdaptationSetV| rw_as(x, session_id@, base_url@, period_base@),
        ));
    }
}

/// Rewrite one AdaptationSet in place.
fn rewrite_one_adaptation(
    adaptation: &mut AdaptationSet,
    session_id: &str,
    base_url: &str,
    pbase: &str,
)
    ensures
        final(adaptation)@ == rw_as(old(adaptation)@, session_id@, base_url@, pbase@),
{
    let ghost a0 = adaptation@;
    let adaptation_base: String = if adaptation.base_urls.len() > 0 {
        proof {
            assert(adaptation@.base_urls[0] == adaptation.base_urls@[0]@);
        }
        compose_url(pbase, adaptation.base_urls[0].as_str())
    } else {
        pbase.to_owned()
    };
    adaptation.base_urls = Vec::new();
    proof {
        assert(adaptation@.base_urls =~= Seq::<Seq<char>>::empty());
        assert(adaptation_base@ == level_base(pbase@, a0.base_urls));
    }

    // the set's own template is rewritten once, against the set's base
    match &mut adaptation.segment_template {
        Some(template) => {
            rewrite_segment_template(template, session_id, base_url, adaptation_base.as_str());
        },
        None => {},
    }
    proof {
        assert(adaptation@.segment_template == (match a0.segment_template {
            Some(t) => Some(rw_template(t, session_id@, base_url@, adaptation_base@)),
            None => None,
        }));
    }

    let ghost rs0 = adaptation@.representations;
    let ghost tmpl_done = adaptation@.segment_template;
    let nr = adaptation.representations.len();
    let mut r: usize = 0;
    while r < nr
        invariant
            nr == rs0.len(),
            nr == adaptation@.representations.len(),
            0 <= r <= nr,
            adaptation_base@ == level_base(pbase@, a0.base_urls),
            forall|j: int| r <= j < nr ==> adaptation@.representations[j] == rs0[j],
            forall|j: int| 0 <= j < r ==> adaptation@.representations[j] == rw_rep(
                rs0[j],
                session_id@,
                base_url@,
                adaptation_base@,
            ),
            adaptation@ == (AdaptationSetV {
                representations: adaptation@.representations,
                segment_template: tmpl_done,
                base_urls: Seq::empty(),
                ..a0
            }),
        decreases nr - r,
    {
        proof {
            assert(adaptation@.representations[r as int] == adaptation.representations@[
                r as int
            ]@);
        }
        let ghost rv = rs0[r as int];
        // the representation's own origin
        let repr_origin: String = if adaptation.representations[r].base_urls.len() > 0 {
            proof {
                assert(adaptation@.representations[r as int].base_urls[0]
                    == adaptation.representations@[r as int].base_urls@[0]@);
            }
            compose_url(
                adaptation_base.as_str(),
                adaptation.representations[r].base_urls[0].as_str(),
            )
        } else {
            adaptation_base.clone()
        };
        proof {
            assert(repr_origin@ == level_base(adaptation_base@, rv.base_urls));
        }
        let ghost before_r = adaptation@.representations;
        adaptation.representations[r].base_urls = Vec::new();
        match &mut adaptation.representations[r].segment_template {
            Some(template) => {
                rewrite_segment_template(template, session_id, base_url, repr_origin.as_str());
            },
            None => {},
        }
        proof {
            assert(adaptation@.representations[r as int].base_urls =~= Seq::<Seq<char>>::empty());
            assert(adaptation@.representations =~= before_r.update(
                r as int,
                rw_rep(rv, session_id@, base_url@, adaptation_base@),
            ));
        }
        r += 1;
    }
    proof {
        assert(adaptation@.representations =~= rs0.map_values(
            |x: RepresentationV| rw_rep(x, session_id@, base_url@, adaptation_base@),
        ));
    }
}

} // verus!
