//! Render an MPD model to XML text.  Every element is specified line by
//! line, and every attribute value and BaseURL text is XML-escaped.

use vstd::prelude::*;
use crate::dash::model::{
    AdaptationSet, AdaptationSetV, DashEvent, DashEventV, EventStream, EventStreamV, Mpd, MpdV,
    Period, PeriodV, Representation, RepresentationV, SegmentList, SegmentListV, SegmentTemplate,
    SegmentTemplateV, SegmentUrl, SegmentUrlV,
};
use crate::errors::RitcherError;
use crate::num::{dec_str, u64_to_string};
use crate::text::push_char;

verus! {

/// The XML-escaped form of one character: the markup characters become
/// entities; everything else passes through.
pub open spec fn xml_esc_char(c: char) -> Seq<char> {
    if c == '&' {
        "&amp;"@
    } else if c == '<' {
        "&lt;"@
    } else if c == '>' {
        "&gt;"@
    } else if c == '"' {
        "&quot;"@
    } else {
        seq![c]
    }
}

/// The XML-escaped form of a string.
pub open spec fn xml_escaped(s: Seq<char>) -> Seq<char>
    decreases s.len(),
{
    if s.len() == 0 {
        Seq::empty()
    } else {
        xml_esc_char(s.first()) + xml_escaped(s.drop_first())
    }
}

proof fn lemma_xml_escaped_push(s: Seq<char>, c: char)
    ensures
        xml_escaped(s.push(c)) == xml_escaped(s) + xml_esc_char(c),
    decreases s.len(),
{
    if s.len() == 0 {
        assert(s.push(c).drop_first() =~= Seq::<char>::empty());
        assert(s.push(c).first() == c);
        assert(xml_escaped(Seq::<char>::empty()) == Seq::<char>::empty());
        assert(xml_escaped(s) + xml_esc_char(c) =~= xml_esc_char(c));
    } else {
        assert(s.push(c).first() == s.first());
        assert(s.push(c).drop_first() =~= s.drop_first().push(c));
        lemma_xml_escaped_push(s.drop_first(), c);
        assert(xml_esc_char(s.first()) + (xml_escaped(s.drop_first()) + xml_esc_char(c)) =~= (
        xml_esc_char(s.first()) + xml_escaped(s.drop_first())) + xml_esc_char(c));
    }
}

/// Escape a string for XML attribute or element text.
pub fn xml_escape(s: &str) -> (r: String)
    ensures
        r@ == xml_escaped(s@),
{
    let len = s.unicode_len();
    let mut out = String::new();
    let mut i: usize = 0;
    assert(s@.subrange(0, 0) =~= Seq::<char>::empty());
    while i < len
        invariant
            len == s@.len(),
            0 <= i <= len,
            out@ == xml_escaped(s@.subrange(0, i as int)),
        decreases len - i,
    {
        let c = s.get_char(i);
        proof {
            assert(s@.subrange(0, i + 1) =~= s@.subrange(0, i as int).push(s@[i as int]));
            lemma_xml_escaped_push(s@.subrange(0, i as int), s@[i as int]);
        }
        if c == '&' {
            out.append("&amp;");
        } else if c == '<' {
            out.append("&lt;");
        } else if c == '>' {
            out.append("&gt;");
        } else if c == '"' {
            out.append("&quot;");
        } else {
            push_char(&mut out, c);
            assert(out@ =~= xml_escaped(s@.subrange(0, i as int)) + xml_esc_char(c));
        }
        i += 1;
    }
    assert(s@.subrange(0, len as int) =~= s@);
    out
}

/// An optional string attribute, escaped and quoted, with a leading
/// space.
pub open spec fn opt_attr(name: Seq<char>, v: Option<Seq<char>>) -> Seq<char> {
    match v {
        Some(x) => " "@ + name + "=\""@ + xml_escaped(x) + "\""@,
        None => Seq::<char>::empty(),
    }
}

/// An optional numeric attribute with a leading space.
pub open spec fn opt_attr_num(name: Seq<char>, v: Option<u64>) -> Seq<char> {
    match v {
        Some(n) => " "@ + name + "=\""@ + dec_str(n as nat) + "\""@,
        None => Seq::<char>::empty(),
    }
}

/// Render an optional string attribute.
fn opt_attr_exec(name: &str, v: &Option<String>) -> (r: String)
    ensures
        r@ == opt_attr(
            name@,
            match v {
                Some(x) => Some(x@),
                None => None,
            },
        ),
{
    match v {
        Some(x) => {
            let mut out = " ".to_owned();
            out.append(name);
            out.append("=\"");
            out.append(xml_escape(x.as_str()).as_str());
            out.append("\"");
            out
        },
        None => {
            let r = String::new();
            proof {
                assert(r@ =~= Seq::<char>::empty());
            }
            r
        },
    }
}

/// Render an optional numeric attribute.
fn opt_attr_num_exec(name: &str, v: Option<u64>) -> (r: String)
    ensures
        r@ == opt_attr_num(name@, v),
{
    match v {
        Some(n) => {
            let mut out = " ".to_owned();
            out.append(name);
            out.append("=\"");
            out.append(u64_to_string(n).as_str());
            out.append("\"");
            out
        },
        None => {
            let r = String::new();
            proof {
                assert(r@ =~= Seq::<char>::empty());
            }
            r
        },
    }
}

/// One `<BaseURL>` line under the given indent.
pub open spec fn render_base_url(u: Seq<char>, indent: Seq<char>) -> Seq<char> {
    indent + "<BaseURL>"@ + xml_escaped(u) + "</BaseURL>\n"@
}

/// The `<BaseURL>` lines from `k` on.
pub open spec fn render_base_urls(us: Seq<Seq<char>>, k: int, indent: Seq<char>) -> Seq<char>
    decreases us.len() - k,
        when k >= 0
{
    if !(0 <= k < us.len()) {
        Seq::empty()
    } else {
        render_base_url(us[k], indent) + render_base_urls(us, k + 1, indent)
    }
}

/// Append the `<BaseURL>` lines of a level.
fn write_base_urls(out: &mut String, us: &Vec<String>, indent: &str)
    ensures
        final(out)@ == old(out)@ + render_base_urls(us@.map_values(|u: String| u@), 0, indent@),
{
    let ghost uv = us@.map_values(|u: String| u@);
    let n = us.len();
    let mut k: usize = 0;
    while k < n
        invariant
            n == uv.len(),
            uv == us@.map_values(|u: String| u@),
            0 <= k <= n,
            out@ + render_base_urls(uv, k as int, indent@) == old(out)@ + render_base_urls(
                uv,
                0,
                indent@,
            ),
        decreases n - k,
    {
        proof {
            assert(uv[k as int] == us@[k as int]@);
        }
        out.append(indent);
        out.append("<BaseURL>");
        out.append(xml_escape(us[k].as_str()).as_str());
        out.append("</BaseURL>\n");
        proof {
            assert(out@ + render_base_urls(uv, k + 1, indent@) =~= old(out)@ + render_base_urls(
                uv,
                0,
                indent@,
            ));
        }
        k += 1;
    }
}

/// A `<SegmentTemplate/>` line under the given indent.
pub open spec fn render_template(t: SegmentTemplateV, indent: Seq<char>) -> Seq<char> {
    indent + "<SegmentTemplate"@ + opt_attr("media"@, t.media) + opt_attr(
        "initialization"@,
        t.initialization,
    ) + opt_attr_num("timescale"@, t.timescale) + opt_attr_num("duration"@, t.duration)
        + opt_attr_num("startNumber"@, t.start_number) + "/>\n"@
}

/// Render a `<SegmentTemplate/>` line.
fn write_template(out: &mut String, t: &SegmentTemplate, indent: &str)
    ensures
        final(out)@ == old(out)@ + render_template(t@, indent@),
{
    out.append(indent);
    out.append("<SegmentTemplate");
    out.append(opt_attr_exec("media", &t.media).as_str());
    out.append(opt_attr_exec("initialization", &t.initialization).as_str());
    out.append(opt_attr_num_exec("timescale", t.timescale).as_str());
    out.append(opt_attr_num_exec("duration", t.duration).as_str());
    out.append(opt_attr_num_exec("startNumber", t.start_number).as_str());
    out.append("/>\n");
}

/// One `<SegmentURL/>` line.
pub open spec fn render_segment_url(u: SegmentUrlV) -> Seq<char> {
    "          <SegmentURL"@ + opt_attr("media"@, u.media) + "/>\n"@
}

/// The `<SegmentURL/>` lines from `k` on.
pub open spec fn render_segment_urls(us: Seq<SegmentUrlV>, k: int) -> Seq<char>
    decreases us.len() - k,
        when k >= 0
{
    if !(0 <= k < us.len()) {
        Seq::empty()
    } else {
        render_segment_url(us[k]) + render_segment_urls(us, k + 1)
    }
}

/// A `<SegmentList>` element.
pub open spec fn render_segment_list(l: SegmentListV) -> Seq<char> {
    "        <SegmentList>\n"@ + render_segment_urls(l.segment_urls, 0)
        + "        </SegmentList>\n"@
}

/// Render a `<SegmentList>` element.
fn write_segment_list(out: &mut String, l: &SegmentList)
    ensures
        final(out)@ == old(out)@ + render_segment_list(l@),
{
    out.append("        <SegmentList>\n");
    let ghost uv = l@.segment_urls;
    let ghost mid = out@;
    let n = l.segment_urls.len();
    let mut k: usize = 0;
    while k < n
        invariant
            n == uv.len(),
            uv == l@.segment_urls,
            0 <= k <= n,
            out@ + render_segment_urls(uv, k as int) == mid + render_segment_urls(uv, 0),
        decreases n - k,
    {
        proof {
            assert(uv[k as int] == l.segment_urls@[k as int]@);
        }
        out.append("          <SegmentURL");
        out.append(opt_attr_exec("media", &l.segment_urls[k].media).as_str());
        out.append("/>\n");
        proof {
            assert(out@ + render_segment_urls(uv, k + 1) =~= mid + render_segment_urls(uv, 0));
        }
        k += 1;
    }
    out.append("        </SegmentList>\n");
    proof {
        assert(out@ =~= old(out)@ + render_segment_list(l@));
    }
}

/// A `<Representation>` element.
pub open spec fn render_representation(r: RepresentationV) -> Seq<char> {
    "      <Representation"@ + opt_attr("id"@, r.id) + opt_attr_num("bandwidth"@, r.bandwidth)
        + opt_attr("codecs"@, r.codecs) + ">\n"@ + render_base_urls(r.base_urls, 0, "        "@)
        + (match r.segment_template {
        Some(t) => render_template(t, "        "@),
        None => Seq::<char>::empty(),
    }) + (match r.segment_list {
        Some(l) => render_segment_list(l),
        None => Seq::<char>::empty(),
    }) + "      </Representation>\n"@
}

/// The `<Representation>` elements from `k` on.
pub open spec fn render_representations(rs: Seq<RepresentationV>, k: int) -> Seq<char>
    decreases rs.len() - k,
        when k >= 0
{
    if !(0 <= k < rs.len()) {
        Seq::empty()
    } else {
        render_representation(rs[k]) + render_representations(rs, k + 1)
    }
}

/// Render a `<Representation>` element.
#[verifier::rlimit(100)]
#[verifier::spinoff_prover]
fn write_representation(out: &mut String, r: &Representation)
    ensures
        final(out)@ == old(out)@ + render_representation(r@),
{
    out.append("      <Representation");
    out.append(opt_attr_exec("id", &r.id).as_str());
    out.append(opt_attr_num_exec("bandwidth", r.bandwidth).as_str());
    out.append(opt_attr_exec("codecs", &r.codecs).as_str());
    out.append(">\n");
    write_base_urls(out, &r.base_urls, "        ");
    match &r.segment_template {
        Some(t) => {
            write_template(out, t, "        ");
        },
        None => {},
    }
    match &r.segment_list {
        Some(l) => {
            write_segment_list(out, l);
        },
        None => {},
    }
    out.append("      </Representation>\n");
    proof {
        assert(out@ =~= old(out)@ + render_representation(r@));
    }
}

/// An `<AdaptationSet>` element.
pub open spec fn render_adaptation(a: AdaptationSetV) -> Seq<char> {
    "    <AdaptationSet"@ + opt_attr("id"@, a.id) + opt_attr("contentType"@, a.content_type)
        + opt_attr("mimeType"@, a.mime_type) + opt_attr("lang"@, a.lang) + ">\n"@
        + render_base_urls(a.base_urls, 0, "      "@) + (match a.segment_template {
        Some(t) => render_template(t, "      "@),
        None => Seq::<char>::empty(),
    }) + render_representations(a.representations, 0) + "    </AdaptationSet>\n"@
}

/// The `<AdaptationSet>` elements from `k` on.
pub open spec fn render_adaptations(xs: Seq<AdaptationSetV>, k: int) -> Seq<char>
    decreases xs.len() - k,
        when k >= 0
{
    if !(0 <= k < xs.len()) {
        Seq::empty()
    } else {
        render_adaptation(xs[k]) + render_adaptations(xs, k + 1)
    }
}

/// Render an `<AdaptationSet>` element.
#[verifier::rlimit(100)]
#[verifier::spinoff_prover]
fn write_adaptation(out: &mut String, a: &AdaptationSet)
    ensures
        final(out)@ == old(out)@ + render_adaptation(a@),
{
    out.append("    <AdaptationSet");
    out.append(opt_attr_exec("id", &a.id).as_str());
    out.append(opt_attr_exec("contentType", &a.content_type).as_str());
    out.append(opt_attr_exec("mimeType", &a.mime_type).as_str());
    out.append(opt_attr_exec("lang", &a.lang).as_str());
    out.append(">\n");
    proof {
        assert(out@ =~= old(out)@ + ("    <AdaptationSet"@ + opt_attr("id"@, a@.id) + opt_attr(
            "contentType"@,
            a@.content_type,
        ) + opt_attr("mimeType"@, a@.mime_type) + opt_attr("lang"@, a@.lang) + ">\n"@));
    }
    write_base_urls(out, &a.base_urls, "      ");
    let ghost c1 = out@;
    match &a.segment_template {
        Some(t) => {
            write_template(out, t, "      ");
        },
        None => {},
    }
    proof {
        assert(out@ =~= c1 + (match a@.segment_template {
            Some(t) => render_template(t, "      "@),
            None => Seq::<char>::empty(),
        }));
    }
    let ghost rv = a@.representations;
    let ghost mid = out@;
    let n = a.representations.len();
    let mut k: usize = 0;
    while k < n
        invariant
            n == rv.len(),
            rv == a@.representations,
            0 <= k <= n,
            out@ + render_representations(rv, k as int) == mid + render_representations(rv, 0),
        decreases n - k,
    {
        proof {
            assert(rv[k as int] == a.representations@[k as int]@);
        }
        write_representation(out, &a.representations[k]);
        proof {
            assert(out@ + render_representations(rv, k + 1) =~= mid + render_representations(
                rv,
                0,
            ));
        }
        k += 1;
    }
    let ghost c2 = out@;
    out.append("    </AdaptationSet>\n");
    proof {
        assert(out@ =~= c2 + "    </AdaptationSet>\n"@);
        assert(out@ =~= old(out)@ + render_adaptation(a@));
    }
}

/// One `<Event/>` line.
pub open spec fn render_event(ev: DashEventV) -> Seq<char> {
    "      <Event"@ + opt_attr("id"@, ev.id) + opt_attr_num(
        "presentationTime"@,
        ev.presentation_time,
    ) + opt_attr_num("duration"@, ev.duration) + "/>\n"@
}

/// The `<Event/>` lines from `k` on.
pub open spec fn render_events(evs: Seq<DashEventV>, k: int) -> Seq<char>
    decreases evs.len() - k,
        when k >= 0
{
    if !(0 <= k < evs.len()) {
        Seq::empty()
    } else {
        render_event(evs[k]) + render_events(evs, k + 1)
    }
}

/// An `<EventStream>` element.
pub open spec fn render_event_stream(es: EventStreamV) -> Seq<char> {
    "    <EventStream"@ + opt_attr("schemeIdUri"@, es.scheme_id_uri) + opt_attr_num(
        "timescale"@,
        es.timescale,
    ) + ">\n"@ + render_events(es.events, 0) + "    </EventStream>\n"@
}

/// The `<EventStream>` elements from `k` on.
pub open spec fn render_event_streams(xs: Seq<EventStreamV>, k: int) -> Seq<char>
    decreases xs.len() - k,
        when k >= 0
{
    if !(0 <= k < xs.len()) {
        Seq::empty()
    } else {
        render_event_stream(xs[k]) + render_event_streams(xs, k + 1)
    }
}

/// Render an `<EventStream>` element.
fn write_event_stream(out: &mut String, es: &EventStream)
    ensures
        final(out)@ == old(out)@ + render_event_stream(es@),
{
    out.append("    <EventStream");
    out.append(opt_attr_exec("schemeIdUri", &es.scheme_id_uri).as_str());
    out.append(opt_attr_num_exec("timescale", es.timescale).as_str());
    out.append(">\n");
    let ghost ev = es@.events;
    let ghost mid = out@;
    let n = es.events.len();
    let mut k: usize = 0;
    while k < n
        invariant
            n == ev.len(),
            ev == es@.events,
            0 <= k <= n,
            out@ + render_events(ev, k as int) == mid + render_events(ev, 0),
        decreases n - k,
    {
        proof {
            assert(ev[k as int] == es.events@[k as int]@);
        }
        let e = &es.events[k];
        out.append("      <Event");
        out.append(opt_attr_exec("id", &e.id).as_str());
        out.append(opt_attr_num_exec("presentationTime", e.presentation_time).as_str());
        out.append(opt_attr_num_exec("duration", e.duration).as_str());
        out.append("/>\n");
        proof {
            assert(out@ + render_events(ev, k + 1) =~= mid + render_events(ev, 0));
        }
        k += 1;
    }
    out.append("    </EventStream>\n");
    proof {
        assert(out@ =~= old(out)@ + render_event_stream(es@));
    }
}

/// A `<Period>` element.
pub open spec fn render_period(p: PeriodV) -> Seq<char> {
    "  <Period"@ + opt_attr("id"@, p.id) + opt_attr("duration"@, p.duration) + ">\n"@
        + render_base_urls(p.base_urls, 0, "    "@) + render_adaptations(p.adaptations, 0)
        + render_event_streams(p.event_streams, 0) + "  </Period>\n"@
}

/// The `<Period>` elements from `k` on.
pub open spec fn render_periods(ps: Seq<PeriodV>, k: int) -> Seq<char>
    decreases ps.len() - k,
        when k >= 0
{
    if !(0 <= k < ps.len()) {
        Seq::empty()
    } else {
        render_period(ps[k]) + render_periods(ps, k + 1)
    }
}

/// Render a `<Period>` element.
#[verifier::rlimit(100)]
#[verifier::spinoff_prover]
fn write_period(out: &mut String, p: &Period)
    ensures
        final(out)@ == old(out)@ + render_period(p@),
{
    out.append("  <Period");
    out.append(opt_attr_exec("id", &p.id).as_str());
    out.append(opt_attr_exec("duration", &p.duration).as_str());
    out.append(">\n");
    write_base_urls(out, &p.base_urls, "    ");
    let ghost av = p@.adaptations;
    let ghost mid = out@;
    let na = p.adaptations.len();
    let mut k: usize = 0;
    while k < na
        invariant
            na == av.len(),
            av == p@.adaptations,
            0 <= k <= na,
            out@ + render_adaptations(av, k as int) == mid + render_adaptations(av, 0),
        decreases na - k,
    {
        proof {
            assert(av[k as int] == p.adaptations@[k as int]@);
        }
        write_adaptation(out, &p.adaptations[k]);
        proof {
            assert(out@ + render_adaptations(av, k + 1) =~= mid + render_adaptations(av, 0));
        }
        k += 1;
    }
    let ghost esv = p@.event_streams;
    let ghost mid2 = out@;
    let ne = p.event_streams.len();
    let mut j: usize = 0;
    while j < ne
        invariant
            ne == esv.len(),
            esv == p@.event_streams,
            0 <= j <= ne,
            out@ + render_event_streams(esv, j as int) == mid2 + render_event_streams(esv, 0),
        decreases ne - j,
    {
        proof {
            assert(esv[j as int] == p.event_streams@[j as int]@);
        }
        write_event_stream(out, &p.event_streams[j]);
        proof {
            assert(out@ + render_event_streams(esv, j + 1) =~= mid2 + render_event_streams(
                esv,
                0,
            ));
        }
        j += 1;
    }
    out.append("  </Period>\n");
    proof {
        assert(out@ =~= old(out)@ + render_period(p@));
    }
}

/// A whole MPD document.
pub open spec fn render_mpd(m: MpdV) -> Seq<char> {
    "<?xml version=\"1.0\" encoding=\"UTF-8\"?>\n<MPD xmlns=\"urn:mpeg:dash:schema:mpd:2011\""@
        + opt_attr("type"@, m.mpd_type) + opt_attr(
        "mediaPresentationDuration"@,
        m.media_presentation_duration,
    ) + opt_attr("minBufferTime"@, m.min_buffer_time) + opt_attr("profiles"@, m.profiles)
        + ">\n"@ + render_base_urls(m.base_urls, 0, "  "@) + render_periods(m.periods, 0)
        + "</MPD>\n"@
}

/// Serialize an MPD to XML text.  Never fails.
pub fn serialize_mpd(mpd: &Mpd) -> (r: Result<String, RitcherError>)
    ensures
        match r {
            Ok(s) => s@ == render_mpd(mpd@),
            Err(_) => false,
        },
{
    let mut out =
        "<?xml version=\"1.0\" encoding=\"UTF-8\"?>\n<MPD xmlns=\"urn:mpeg:dash:schema:mpd:2011\""
        .to_owned();
    out.append(opt_attr_exec("type", &mpd.mpd_type).as_str());
    out.append(
        opt_attr_exec("mediaPresentationDuration", &mpd.media_presentation_duration).as_str(),
    );
    out.append(opt_attr_exec("minBufferTime", &mpd.min_buffer_time).as_str());
    out.append(opt_attr_exec("profiles", &mpd.profiles).as_str());
    out.append(">\n");
    write_base_urls(&mut out, &mpd.base_urls, "  ");
    let ghost pv = mpd@.periods;
    let ghost mid = out@;
    let n = mpd.periods.len();
    let mut k: usize = 0;
    while k < n
        invariant
            n == pv.len(),
            pv == mpd@.periods,
            0 <= k <= n,
            out@ + render_periods(pv, k as int) == mid + render_periods(pv, 0),
        decreases n - k,
    {
        proof {
            assert(pv[k as int] == mpd.periods@[k as int]@);
        }
        write_period(&mut out, &mpd.periods[k]);
        proof {
            assert(out@ + render_periods(pv, k + 1) =~= mid + render_periods(pv, 0));
        }
        k += 1;
    }
    out.append("</MPD>\n");
    proof {
        assert(out@ =~= render_mpd(mpd@));
    }
    Ok(out)
}

} // verus!
