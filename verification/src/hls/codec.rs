//! The playlist codec: render a playlist model to M3U8 text, and parse
//! M3U8 text into the model.
//!
//! The renderer is specified line by line; the parser is specified as a
//! fold over the input lines.  Tags the model does not treat
//! structurally ride along as unknown tags and re-render verbatim.

use vstd::prelude::*;
use crate::errors::RitcherError;
use crate::hls::model::{
    AlternativeMedia, AlternativeMediaV, DateRange, DateRangeV, ExtTag, ExtTagV, MasterPlaylist,
    MasterPlaylistV, MediaPlaylist, MediaPlaylistV, MediaSegment, Playlist, PlaylistV, SegV,
    VariantStream, VariantStreamV, XAttr, XAttrV,
};
use crate::num::{dec_str, ms_dec_str, ms_to_dec_string, u64_to_string};
use crate::pdt::{format_rfc3339_ms, rfc3339_of};

verus! {

/// One unknown tag's line.
pub open spec fn render_tag(t: ExtTagV) -> Seq<char> {
    "#EXT-"@ + t.tag + (match t.rest {
        Some(r) => ":"@ + r,
        None => Seq::<char>::empty(),
    }) + "\n"@
}

/// The unknown-tag lines from `k` on.
pub open spec fn render_tags_from(ts: Seq<ExtTagV>, k: int) -> Seq<char>
    decreases ts.len() - k,
        when k >= 0
{
    if !(0 <= k < ts.len()) {
        Seq::empty()
    } else {
        render_tag(ts[k]) + render_tags_from(ts, k + 1)
    }
}

/// One client attribute of a DateRange tag.
pub open spec fn render_xattr(a: XAttrV) -> Seq<char> {
    ","@ + a.key + "="@ + (if a.quoted {
        "\""@ + a.value + "\""@
    } else {
        a.value
    })
}

/// The client attributes from `k` on.
pub open spec fn render_xattrs_from(xs: Seq<XAttrV>, k: int) -> Seq<char>
    decreases xs.len() - k,
        when k >= 0
{
    if !(0 <= k < xs.len()) {
        Seq::empty()
    } else {
        render_xattr(xs[k]) + render_xattrs_from(xs, k + 1)
    }
}

/// An optional quoted attribute piece.
pub open spec fn opt_quoted(prefix: Seq<char>, v: Option<Seq<char>>) -> Seq<char> {
    match v {
        Some(x) => prefix + x + "\""@,
        None => Seq::<char>::empty(),
    }
}

/// An optional millisecond attribute piece.
pub open spec fn opt_ms(prefix: Seq<char>, v: Option<u64>) -> Seq<char> {
    match v {
        Some(ms) => prefix + ms_dec_str(ms as nat),
        None => Seq::<char>::empty(),
    }
}

/// The fixed leading attributes of a DateRange tag line.
pub open spec fn dr_head(d: DateRangeV) -> Seq<char> {
    "#EXT-X-DATERANGE:ID=\""@ + d.id + "\""@ + opt_quoted(",CLASS=\""@, d.class)
        + ",START-DATE=\""@ + d.start_date + "\""@ + opt_quoted(",END-DATE=\""@, d.end_date)
        + opt_ms(",DURATION="@, d.duration_ms) + opt_ms(
        ",PLANNED-DURATION="@,
        d.planned_duration_ms,
    )
}

/// The trailing attributes of a DateRange tag line.
pub open spec fn dr_tail(d: DateRangeV) -> Seq<char> {
    (if d.end_on_next {
        ",END-ON-NEXT=YES"@
    } else {
        Seq::<char>::empty()
    }) + "\n"@
}

/// A DateRange tag line.
pub open spec fn render_daterange(d: DateRangeV) -> Seq<char> {
    dr_head(d) + render_xattrs_from(d.x_attrs, 0) + dr_tail(d)
}

/// The discontinuity piece of a segment.
pub open spec fn disc_piece(disc: bool) -> Seq<char> {
    if disc {
        "#EXT-X-DISCONTINUITY\n"@
    } else {
        Seq::<char>::empty()
    }
}

/// The program-date-time piece of a segment.
pub open spec fn pdt_piece(p: Option<i64>) -> Seq<char> {
    match p {
        Some(ms) => "#EXT-X-PROGRAM-DATE-TIME:"@ + rfc3339_of(ms) + "\n"@,
        None => Seq::<char>::empty(),
    }
}

/// The DateRange piece of a segment.
pub open spec fn dr_piece(d: Option<DateRangeV>) -> Seq<char> {
    match d {
        Some(x) => render_daterange(x),
        None => Seq::<char>::empty(),
    }
}

/// The EXTINF line of a segment.
pub open spec fn extinf_piece(duration_ms: u64, title: Option<Seq<char>>) -> Seq<char> {
    "#EXTINF:"@ + ms_dec_str(duration_ms as nat) + ","@ + (match title {
        Some(t) => t,
        None => Seq::<char>::empty(),
    }) + "\n"@
}

/// One media segment's lines.
pub open spec fn render_segment(s: SegV) -> Seq<char> {
    render_tags_from(s.unknown_tags, 0) + disc_piece(s.discontinuity) + pdt_piece(
        s.program_date_time,
    ) + dr_piece(s.daterange) + extinf_piece(s.duration_ms, s.title) + s.uri + "\n"@
}

/// The segment lines from `k` on.
pub open spec fn render_segments_from(ss: Seq<SegV>, k: int) -> Seq<char>
    decreases ss.len() - k,
        when k >= 0
{
    if !(0 <= k < ss.len()) {
        Seq::empty()
    } else {
        render_segment(ss[k]) + render_segments_from(ss, k + 1)
    }
}

/// A whole media playlist's text.
pub open spec fn render_media(m: MediaPlaylistV) -> Seq<char> {
    "#EXTM3U\n"@ + (match m.version {
        Some(v) => "#EXT-X-VERSION:"@ + dec_str(v as nat) + "\n"@,
        None => Seq::<char>::empty(),
    }) + "#EXT-X-TARGETDURATION:"@ + ms_dec_str(m.target_duration_ms as nat) + "\n"@
        + "#EXT-X-MEDIA-SEQUENCE:"@ + dec_str(m.media_sequence as nat) + "\n"@ + (
    if m.discontinuity_sequence != 0 {
        "#EXT-X-DISCONTINUITY-SEQUENCE:"@ + dec_str(m.discontinuity_sequence as nat) + "\n"@
    } else {
        Seq::<char>::empty()
    }) + render_segments_from(m.segments, 0) + render_tags_from(m.trailing_tags, 0) + (
    if m.end_list {
        "#EXT-X-ENDLIST\n"@
    } else {
        Seq::<char>::empty()
    })
}

/// One alternative-media line.
pub open spec fn render_alternative(a: AlternativeMediaV) -> Seq<char> {
    "#EXT-X-MEDIA:"@ + render_attr_list(a.attrs, 0) + "\n"@
}

/// A comma-separated attribute list from `k` on.
pub open spec fn render_attr_list(xs: Seq<XAttrV>, k: int) -> Seq<char>
    decreases xs.len() - k,
        when k >= 0
{
    if !(0 <= k < xs.len()) {
        Seq::empty()
    } else {
        (if k > 0 {
            ","@
        } else {
            Seq::<char>::empty()
        }) + xs[k].key + "="@ + (if xs[k].quoted {
            "\""@ + xs[k].value + "\""@
        } else {
            xs[k].value
        }) + render_attr_list(xs, k + 1)
    }
}

/// The alternative-media lines from `k` on.
pub open spec fn render_alternatives_from(xs: Seq<AlternativeMediaV>, k: int) -> Seq<char>
    decreases xs.len() - k,
        when k >= 0
{
    if !(0 <= k < xs.len()) {
        Seq::empty()
    } else {
        render_alternative(xs[k]) + render_alternatives_from(xs, k + 1)
    }
}

/// One variant stream's two lines.
pub open spec fn render_variant(v: VariantStreamV) -> Seq<char> {
    "#EXT-X-STREAM-INF:"@ + v.attrs + "\n"@ + v.uri + "\n"@
}

/// The variant lines from `k` on.
pub open spec fn render_variants_from(vs: Seq<VariantStreamV>, k: int) -> Seq<char>
    decreases vs.len() - k,
        when k >= 0
{
    if !(0 <= k < vs.len()) {
        Seq::empty()
    } else {
        render_variant(vs[k]) + render_variants_from(vs, k + 1)
    }
}

/// A whole master playlist's text.
pub open spec fn render_master(m: MasterPlaylistV) -> Seq<char> {
    "#EXTM3U\n"@ + (match m.version {
        Some(v) => "#EXT-X-VERSION:"@ + dec_str(v as nat) + "\n"@,
        None => Seq::<char>::empty(),
    }) + render_tags_from(m.other_tags, 0) + render_alternatives_from(m.alternatives, 0)
        + render_variants_from(m.variants, 0)
}

/// A playlist's text.
pub open spec fn render_playlist(p: PlaylistV) -> Seq<char> {
    match p {
        PlaylistV::MediaPlaylist(m) => render_media(m),
        PlaylistV::MasterPlaylist(m) => render_master(m),
    }
}

/// Append one unknown tag's line.
fn write_tag(out: &mut String, t: &ExtTag)
    ensures
        final(out)@ == old(out)@ + render_tag(t@),
{
    out.append("#EXT-");
    out.append(t.tag.as_str());
    match &t.rest {
        Some(r) => {
            out.append(":");
            out.append(r.as_str());
        },
        None => {},
    }
    out.append("\n");
}

/// Append the unknown-tag lines.
fn write_tags(out: &mut String, ts: &Vec<ExtTag>)
    ensures
        final(out)@ == old(out)@ + render_tags_from(ts@.map_values(|t: ExtTag| t@), 0),
{
    let ghost tv = ts@.map_values(|t: ExtTag| t@);
    let n = ts.len();
    let mut k: usize = 0;
    while k < n
        invariant
            n == tv.len(),
            tv == ts@.map_values(|t: ExtTag| t@),
            0 <= k <= n,
            out@ + render_tags_from(tv, k as int) == old(out)@ + render_tags_from(tv, 0),
        decreases n - k,
    {
        proof {
            assert(tv[k as int] == ts@[k as int]@);
        }
        write_tag(out, &ts[k]);
        proof {
            assert(out@ + render_tags_from(tv, k + 1) =~= old(out)@ + render_tags_from(tv, 0));
        }
        k += 1;
    }
}

/// Append a DateRange line.
fn write_daterange(out: &mut String, d: &DateRange)
    ensures
        final(out)@ == old(out)@ + render_daterange(d@),
{
    out.append("#EXT-X-DATERANGE:ID=\"");
    out.append(d.id.as_str());
    out.append("\"");
    out.append(opt_quoted_exec(",CLASS=\"", &d.class).as_str());
    out.append(",START-DATE=\"");
    out.append(d.start_date.as_str());
    out.append("\"");
    out.append(opt_quoted_exec(",END-DATE=\"", &d.end_date).as_str());
    out.append(opt_ms_exec(",DURATION=", d.duration_ms).as_str());
    out.append(opt_ms_exec(",PLANNED-DURATION=", d.planned_duration_ms).as_str());
    proof {
        assert(out@ =~= old(out)@ + dr_head(d@));
    }
    let ghost xs = d.x_attrs@.map_values(|a: XAttr| a@);
    let ghost mid = out@;
    let nx = d.x_attrs.len();
    let mut k: usize = 0;
    while k < nx
        invariant
            nx == xs.len(),
            xs == d.x_attrs@.map_values(|a: XAttr| a@),
            0 <= k <= nx,
            out@ + render_xattrs_from(xs, k as int) == mid + render_xattrs_from(xs, 0),
        decreases nx - k,
    {
        proof {
            assert(xs[k as int] == d.x_attrs@[k as int]@);
        }
        let a = &d.x_attrs[k];
        out.append(",");
        out.append(a.key.as_str());
        out.append("=");
        if a.quoted {
            out.append("\"");
            out.append(a.value.as_str());
            out.append("\"");
        } else {
            out.append(a.value.as_str());
        }
        proof {
            assert(out@ + render_xattrs_from(xs, k + 1) =~= mid + render_xattrs_from(xs, 0));
        }
        k += 1;
    }
    proof {
        assert(out@ =~= old(out)@ + dr_head(d@) + render_xattrs_from(xs, 0));
    }
    let ghost mid2 = out@;
    if d.end_on_next {
        out.append(",END-ON-NEXT=YES");
    }
    out.append("\n");
    proof {
        assert(out@ =~= mid2 + dr_tail(d@));
        assert(out@ =~= old(out)@ + render_daterange(d@));
    }
}

/// Render an optional quoted attribute piece.
fn opt_quoted_exec(prefix: &str, v: &Option<String>) -> (r: String)
    ensures
        r@ == opt_quoted(
            prefix@,
            match v {
                Some(x) => Some(x@),
                None => None,
            },
        ),
{
    match v {
        Some(x) => {
            let mut out = prefix.to_owned();
            out.append(x.as_str());
            out.append("\"");
            out
        },
        None => {
            let r = String::new();
            proof {
                assert(r@ =~= Seq::<char>::empty());
            }
            r
        },
    }
}

/// Render an optional millisecond attribute piece.
fn opt_ms_exec(prefix: &str, v: Option<u64>) -> (r: String)
    ensures
        r@ == opt_ms(prefix@, v),
{
    match v {
        Some(ms) => {
            let mut out = prefix.to_owned();
            out.append(ms_to_dec_string(ms).as_str());
            out
        },
        None => {
            let r = String::new();
            proof {
                assert(r@ =~= Seq::<char>::empty());
            }
            r
        },
    }
}

/// Append one segment's lines.
fn write_segment(out: &mut String, s: &MediaSegment)
    ensures
        final(out)@ == old(out)@ + render_segment(s@),
{
    write_tags(out, &s.unknown_tags);
    out.append(disc_piece_exec(s.discontinuity).as_str());
    out.append(pdt_piece_exec(s.program_date_time).as_str());
    out.append(dr_piece_exec(&s.daterange).as_str());
    out.append(extinf_piece_exec(s.duration_ms, &s.title).as_str());
    out.append(s.uri.as_str());
    out.append("\n");
    proof {
        assert(out@ =~= old(out)@ + render_segment(s@));
    }
}

/// Render the discontinuity piece.
fn disc_piece_exec(disc: bool) -> (r: String)
    ensures
        r@ == disc_piece(disc),
{
    if disc {
        "#EXT-X-DISCONTINUITY\n".to_owned()
    } else {
        let r = String::new();
        proof {
            assert(r@ =~= Seq::<char>::empty());
        }
        r
    }
}

/// Render the program-date-time piece.
fn pdt_piece_exec(p: Option<i64>) -> (r: String)
    ensures
        r@ == pdt_piece(p),
{
    match p {
        Some(ms) => {
            let mut out = "#EXT-X-PROGRAM-DATE-TIME:".to_owned();
            out.append(format_rfc3339_ms(ms).as_str());
            out.append("\n");
            out
        },
        None => {
            let r = String::new();
            proof {
                assert(r@ =~= Seq::<char>::empty());
            }
            r
        },
    }
}

/// Render the DateRange piece.
fn dr_piece_exec(d: &Option<DateRange>) -> (r: String)
    ensures
        r@ == dr_piece(
            match d {
                Some(x) => Some(x@),
                None => None,
            },
        ),
{
    match d {
        Some(x) => {
            let mut out = String::new();
            proof {
                assert(out@ =~= Seq::<char>::empty());
            }
            write_daterange(&mut out, x);
            proof {
                assert(out@ =~= render_daterange(x@));
            }
            out
        },
        None => {
            let r = String::new();
            proof {
                assert(r@ =~= Seq::<char>::empty());
            }
            r
        },
    }
}

/// Render the EXTINF line.
fn extinf_piece_exec(duration_ms: u64, title: &Option<String>) -> (r: String)
    ensures
        r@ == extinf_piece(
            duration_ms,
            match title {
                Some(t) => Some(t@),
                None => None,
            },
        ),
{
    let mut out = "#EXTINF:".to_owned();
    out.append(ms_to_dec_string(duration_ms).as_str());
    out.append(",");
    match title {
        Some(t) => {
            out.append(t.as_str());
        },
        None => {},
    }
    out.append("\n");
    out
}

/// Serialize a playlist to M3U8 text.  Never fails.
pub fn serialize_playlist(playlist: Playlist) -> (r: Result<String, RitcherError>)
    ensures
        match r {
            Ok(s) => s@ == render_playlist(playlist@),
            Err(_) => false,
        },
{
    match playlist {
        Playlist::MediaPlaylist(m) => Ok(serialize_media(&m)),
        Playlist::MasterPlaylist(m) => Ok(serialize_master(&m)),
    }
}

/// Render a media playlist.
#[verifier::rlimit(60)]
fn serialize_media(m: &MediaPlaylist) -> (r: String)
    ensures
        r@ == render_media(m@),
{
    let mut out = "#EXTM3U\n".to_owned();
    match m.version {
        Some(v) => {
            out.append("#EXT-X-VERSION:");
            out.append(u64_to_string(v).as_str());
            out.append("\n");
        },
        None => {},
    }
    out.append("#EXT-X-TARGETDURATION:");
    out.append(ms_to_dec_string(m.target_duration_ms).as_str());
    out.append("\n");
    out.append("#EXT-X-MEDIA-SEQUENCE:");
    out.append(u64_to_string(m.media_sequence).as_str());
    out.append("\n");
    if m.discontinuity_sequence != 0 {
        out.append("#EXT-X-DISCONTINUITY-SEQUENCE:");
        out.append(u64_to_string(m.discontinuity_sequence).as_str());
        out.append("\n");
    }
    let ghost sv = m@.segments;
    let ghost head = out@;
    let n = m.segments.len();
    let mut k: usize = 0;
    while k < n
        invariant
            n == sv.len(),
            sv == m@.segments,
            0 <= k <= n,
            out@ + render_segments_from(sv, k as int) == head + render_segments_from(sv, 0),
        decreases n - k,
    {
        proof {
            assert(sv[k as int] == m.segments@[k as int]@);
        }
        write_segment(&mut out, &m.segments[k]);
        proof {
            assert(out@ + render_segments_from(sv, k + 1) =~= head + render_segments_from(sv, 0));
        }
        k += 1;
    }
    write_tags(&mut out, &m.trailing_tags);
    if m.end_list {
        out.append("#EXT-X-ENDLIST\n");
    }
    proof {
        assert(out@ =~= render_media(m@));
    }
    out
}

/// Render a master playlist.
fn serialize_master(m: &MasterPlaylist) -> (r: String)
    ensures
        r@ == render_master(m@),
{
    let mut out = "#EXTM3U\n".to_owned();
    match m.version {
        Some(v) => {
            out.append("#EXT-X-VERSION:");
            out.append(u64_to_string(v).as_str());
            out.append("\n");
        },
        None => {},
    }
    write_tags(&mut out, &m.other_tags);

    let ghost av = m@.alternatives;
    let ghost head1 = out@;
    let na = m.alternatives.len();
    let mut k: usize = 0;
    while k < na
        invariant
            na == av.len(),
            av == m@.alternatives,
            0 <= k <= na,
            out@ + render_alternatives_from(av, k as int) == head1 + render_alternatives_from(
                av,
                0,
            ),
        decreases na - k,
    {
        proof {
            assert(av[k as int] == m.alternatives@[k as int]@);
        }
        out.append("#EXT-X-MEDIA:");
        let ghost xs = av[k as int].attrs;
        let ghost mid = out@;
        let alt = &m.alternatives[k];
        let nx = alt.attrs.len();
        let mut x: usize = 0;
        while x < nx
            invariant
                nx == xs.len(),
                xs == alt@.attrs,
                0 <= x <= nx,
                out@ + render_attr_list(xs, x as int) == mid + render_attr_list(xs, 0),
            decreases nx - x,
        {
            proof {
                assert(xs[x as int] == alt.attrs@[x as int]@);
            }
            let a = &alt.attrs[x];
            if x > 0 {
                out.append(",");
            }
            out.append(a.key.as_str());
            out.append("=");
            if a.quoted {
                out.append("\"");
                out.append(a.value.as_str());
                out.append("\"");
            } else {
                out.append(a.value.as_str());
            }
            proof {
                assert(out@ + render_attr_list(xs, x + 1) =~= mid + render_attr_list(xs, 0));
            }
            x += 1;
        }
        out.append("\n");
        proof {
            assert(out@ + render_alternatives_from(av, k + 1) =~= head1
                + render_alternatives_from(av, 0));
        }
        k += 1;
    }

    let ghost vv = m@.variants;
    let ghost head2 = out@;
    let nv = m.variants.len();
    let mut j: usize = 0;
    while j < nv
        invariant
            nv == vv.len(),
            vv == m@.variants,
            0 <= j <= nv,
            out@ + render_variants_from(vv, j as int) == head2 + render_variants_from(vv, 0),
        decreases nv - j,
    {
        proof {
            assert(vv[j as int] == m.variants@[j as int]@);
        }
        let v = &m.variants[j];
        out.append("#EXT-X-STREAM-INF:");
        out.append(v.attrs.as_str());
        out.append("\n");
        out.append(v.uri.as_str());
        out.append("\n");
        proof {
            assert(out@ + render_variants_from(vv, j + 1) =~= head2 + render_variants_from(vv, 0));
        }
        j += 1;
    }
    proof {
        assert(out@ =~= render_master(m@));
    }
    out
}

} // verus!
