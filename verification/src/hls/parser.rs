//! Playlist URL rewriting: proxy content-segment URLs and master-
//! playlist rendition URLs through the stitcher.

use vstd::prelude::*;
use crate::errors::RitcherError;
use crate::hls::model::{
    AlternativeMedia, AlternativeMediaV, MasterPlaylistV, MediaPlaylistV, Playlist, PlaylistV,
    SegV, VariantStream, VariantStreamV, XAttr, XAttrV,
};
use crate::text::{
    contains_seq, last_idx_of, lemma_last_idx_of_found, lemma_last_idx_of_none, starts_with,
    str_contains, str_eq, str_starts_with,
};

verus! {

/// The proxied form of one content-segment URI.  A URI already routed
/// through the stitcher is left alone; an absolute URI is split at its
/// last slash into origin and name; a relative URI keeps the supplied
/// origin base.
pub open spec fn rewritten_uri(
    uri: Seq<char>,
    sid: Seq<char>,
    base: Seq<char>,
    origin_base: Seq<char>,
) -> Seq<char> {
    if contains_seq(uri, "/stitch/"@) {
        uri
    } else if starts_with(uri, "http"@) {
        let (seg_origin, segname): (Seq<char>, Seq<char>) = match last_idx_of(uri, '/') {
            Some(i) => (uri.subrange(0, i), uri.subrange(i + 1, uri.len() as int)),
            None => (Seq::empty(), uri),
        };
        base + "/stitch/"@ + sid + "/segment/"@ + segname + "?origin="@ + seg_origin
    } else {
        base + "/stitch/"@ + sid + "/segment/"@ + uri + "?origin="@ + origin_base
    }
}

/// A segment with its URI proxied.
pub open spec fn rewrite_seg(
    s: SegV,
    sid: Seq<char>,
    base: Seq<char>,
    origin_base: Seq<char>,
) -> SegV {
    SegV { uri: rewritten_uri(s.uri, sid, base, origin_base), ..s }
}

/// A media playlist with every segment URI proxied.
pub open spec fn rewrite_media(
    p: MediaPlaylistV,
    sid: Seq<char>,
    base: Seq<char>,
    origin_base: Seq<char>,
) -> MediaPlaylistV {
    MediaPlaylistV {
        segments: p.segments.map_values(|s: SegV| rewrite_seg(s, sid, base, origin_base)),
        ..p
    }
}

/// A playlist with content URLs proxied: media playlists are rewritten
/// segment by segment, master playlists pass through unchanged.
pub open spec fn rewrite_playlist(
    p: PlaylistV,
    sid: Seq<char>,
    base: Seq<char>,
    origin_base: Seq<char>,
) -> PlaylistV {
    match p {
        PlaylistV::MediaPlaylist(m) => PlaylistV::MediaPlaylist(
            rewrite_media(m, sid, base, origin_base),
        ),
        PlaylistV::MasterPlaylist(m) => PlaylistV::MasterPlaylist(m),
    }
}

/// Build the proxied URI of one content segment.
fn rewrite_one_uri(uri: &str, session_id: &str, base_url: &str, origin_base: &str) -> (r: String)
    ensures
        r@ == rewritten_uri(uri@, session_id@, base_url@, origin_base@),
{
    if str_contains(uri, "/stitch/") {
        return uri.to_owned();
    }
    if str_starts_with(uri, "http") {
        let len = uri.unicode_len();
        let (seg_origin, segname): (&str, &str) = match crate::text::last_index_of(uri, '/') {
            Some(i) => {
                proof {
                    lemma_last_idx_of_found(uri@, '/', i as int);
                }
                (uri.substring_char(0, i), uri.substring_char(i + 1, len))
            },
            None => {
                proof {
                    lemma_last_idx_of_none(uri@, '/');
                }
                (uri.substring_char(0, 0), uri)
            },
        };
        let mut out = base_url.to_owned();
        out.append("/stitch/");
        out.append(session_id);
        out.append("/segment/");
        out.append(segname);
        out.append("?origin=");
        out.append(seg_origin);
        out
    } else {
        let mut out = base_url.to_owned();
        out.append("/stitch/");
        out.append(session_id);
        out.append("/segment/");
        out.append(uri);
        out.append("?origin=");
        out.append(origin_base);
        out
    }
}

/// Rewrite content segment URLs to route through the stitcher's proxy.
///
/// Only media playlists change: every segment URI not already under
/// `/stitch/` is replaced by the proxied form; master playlists pass
/// through.  Never fails.
pub fn rewrite_content_urls(
    playlist: Playlist,
    session_id: &str,
    base_url: &str,
    origin_base: &str,
) -> (r: Result<Playlist, RitcherError>)
    ensures
        match r {
            Ok(out) => out@ == rewrite_playlist(playlist@, session_id@, base_url@, origin_base@),
            Err(_) => false,
        },
{
    match playlist {
        Playlist::MasterPlaylist(m) => Ok(Playlist::MasterPlaylist(m)),
        Playlist::MediaPlaylist(mut media) => {
            let ghost m0 = media@;
            let ghost segs0 = media@.segments;
            let n = media.segments.len();
            let mut i: usize = 0;
            while i < n
                invariant
                    n == segs0.len(),
                    n == media@.segments.len(),
                    0 <= i <= n,
                    forall|j: int| i <= j < n ==> media@.segments[j] == segs0[j],
                    forall|j: int| 0 <= j < i ==> media@.segments[j] == rewrite_seg(
                        segs0[j],
                        session_id@,
                        base_url@,
                        origin_base@,
                    ),
                    media@ == (MediaPlaylistV { segments: media@.segments, ..m0 }),
                decreases n - i,
            {
                proof {
                    assert(media@.segments[i as int] == media.segments@[i as int]@);
                }
                let new_uri = rewrite_one_uri(
                    media.segments[i].uri.as_str(),
                    session_id,
                    base_url,
                    origin_base,
                );
                let ghost before = media@.segments;
                media.segments[i].uri = new_uri;
                proof {
                    assert(media@.segments =~= before.update(
                        i as int,
                        SegV { uri: new_uri@, ..before[i as int] },
                    ));
                }
                i += 1;
            }
            proof {
                assert(media@.segments =~= segs0.map_values(
                    |s: SegV| rewrite_seg(s, session_id@, base_url@, origin_base@),
                ));
            }
            Ok(Playlist::MediaPlaylist(media))
        },
    }
}

/// The absolute form of a rendition URI: absolute URIs stay, relative
/// ones are resolved against the origin base.
pub open spec fn absolute_of(uri: Seq<char>, origin_base: Seq<char>) -> Seq<char> {
    if starts_with(uri, "http"@) {
        uri
    } else {
        origin_base + "/"@ + uri
    }
}

/// The proxied form of one rendition URI, with an optional track
/// qualifier appended.
pub open spec fn rendition_uri(
    uri: Seq<char>,
    sid: Seq<char>,
    base: Seq<char>,
    origin_base: Seq<char>,
    track: Seq<char>,
) -> Seq<char> {
    base + "/stitch/"@ + sid + "/playlist.m3u8?origin="@ + absolute_of(uri, origin_base) + track
}

/// The first attribute with the given key, if any.
pub open spec fn find_attr(attrs: Seq<XAttrV>, key: Seq<char>) -> Option<XAttrV>
    decreases attrs.len(),
{
    if attrs.len() == 0 {
        None
    } else if attrs.first().key == key {
        Some(attrs.first())
    } else {
        find_attr(attrs.drop_first(), key)
    }
}

/// The track qualifier an alternative medium gets, from its TYPE.
pub open spec fn track_param(attrs: Seq<XAttrV>) -> Seq<char> {
    match find_attr(attrs, "TYPE"@) {
        Some(t) => if t.value == "SUBTITLES"@ {
            "&track=subtitles"@
        } else if t.value == "AUDIO"@ {
            "&track=audio"@
        } else {
            Seq::empty()
        },
        None => Seq::empty(),
    }
}

/// An alternative medium with its URI attribute proxied; other
/// attributes, and media without a URI, are unchanged.
pub open spec fn rewrite_alternative(
    a: AlternativeMediaV,
    sid: Seq<char>,
    base: Seq<char>,
    origin_base: Seq<char>,
) -> AlternativeMediaV {
    AlternativeMediaV {
        attrs: a.attrs.map_values(
            |x: XAttrV|
                if x.key == "URI"@ {
                    XAttrV {
                        value: rendition_uri(x.value, sid, base, origin_base, track_param(a.attrs)),
                        ..x
                    }
                } else {
                    x
                },
        ),
    }
}

/// A master playlist with every variant and alternative URI proxied.
pub open spec fn rewrite_master(
    p: MasterPlaylistV,
    sid: Seq<char>,
    base: Seq<char>,
    origin_base: Seq<char>,
) -> MasterPlaylistV {
    MasterPlaylistV {
        variants: p.variants.map_values(
            |v: VariantStreamV| VariantStreamV {
                uri: rendition_uri(v.uri, sid, base, origin_base, Seq::empty()),
                ..v
            },
        ),
        alternatives: p.alternatives.map_values(
            |a: AlternativeMediaV| rewrite_alternative(a, sid, base, origin_base),
        ),
        ..p
    }
}

/// A playlist with master rendition URLs proxied: master playlists are
/// rewritten, media playlists pass through unchanged.
pub open spec fn rewrite_master_playlist(
    p: PlaylistV,
    sid: Seq<char>,
    base: Seq<char>,
    origin_base: Seq<char>,
) -> PlaylistV {
    match p {
        PlaylistV::MasterPlaylist(m) => PlaylistV::MasterPlaylist(
            rewrite_master(m, sid, base, origin_base),
        ),
        PlaylistV::MediaPlaylist(m) => PlaylistV::MediaPlaylist(m),
    }
}

/// Build the proxied URI of one rendition.
fn rewrite_one_rendition(
    uri: &str,
    session_id: &str,
    base_url: &str,
    origin_base: &str,
    track: &str,
) -> (r: String)
    ensures
        r@ == rendition_uri(uri@, session_id@, base_url@, origin_base@, track@),
{
    let mut out = base_url.to_owned();
    out.append("/stitch/");
    out.append(session_id);
    out.append("/playlist.m3u8?origin=");
    if str_starts_with(uri, "http") {
        out.append(uri);
    } else {
        out.append(origin_base);
        out.append("/");
        out.append(uri);
    }
    out.append(track);
    out
}

/// Rewrite master-playlist variant and alternative-media URLs to route
/// through the stitcher's playlist endpoint, so every rendition is
/// stitched.  Subtitle renditions gain `&track=subtitles`, audio
/// renditions `&track=audio`.  Media playlists pass through.  Never
/// fails.
pub fn rewrite_master_urls(
    playlist: Playlist,
    session_id: &str,
    base_url: &str,
    origin_base: &str,
) -> (r: Result<Playlist, RitcherError>)
    ensures
        match r {
            Ok(out) => out@ == rewrite_master_playlist(
                playlist@,
                session_id@,
                base_url@,
                origin_base@,
            ),
            Err(_) => false,
        },
{
    match playlist {
        Playlist::MediaPlaylist(m) => Ok(Playlist::MediaPlaylist(m)),
        Playlist::MasterPlaylist(mut master) => {
            let ghost mv0 = master@;
            let ghost vars0 = master@.variants;
            let n = master.variants.len();
            let mut i: usize = 0;
            while i < n
                invariant
                    n == vars0.len(),
                    n == master@.variants.len(),
                    0 <= i <= n,
                    forall|j: int| i <= j < n ==> master@.variants[j] == vars0[j],
                    forall|j: int| 0 <= j < i ==> master@.variants[j] == (VariantStreamV {
                        uri: rendition_uri(
                            vars0[j].uri,
                            session_id@,
                            base_url@,
                            origin_base@,
                            Seq::empty(),
                        ),
                        ..vars0[j]
                    }),
                    master@ == (MasterPlaylistV { variants: master@.variants, ..mv0 }),
                decreases n - i,
            {
                proof {
                    assert(master@.variants[i as int] == master.variants@[i as int]@);
                }
                let new_uri = rewrite_one_rendition(
                    master.variants[i].uri.as_str(),
                    session_id,
                    base_url,
                    origin_base,
                    "",
                );
                let ghost before = master@.variants;
                master.variants[i].uri = new_uri;
                proof {
                    assert(master@.variants =~= before.update(
                        i as int,
                        VariantStreamV { uri: new_uri@, ..before[i as int] },
                    ));
                    assert(Seq::<char>::empty() =~= ""@) by {
                        reveal_strlit("");
                    }
                }
                i += 1;
            }
            proof {
                assert(master@.variants =~= vars0.map_values(
                    |v: VariantStreamV| VariantStreamV {
                        uri: rendition_uri(
                            v.uri,
                            session_id@,
                            base_url@,
                            origin_base@,
                            Seq::empty(),
                        ),
                        ..v
                    },
                ));
            }

            let ghost alts0 = master@.alternatives;
            let ghost vars_done = master@.variants;
            let m = master.alternatives.len();
            let mut k: usize = 0;
            while k < m
                invariant
                    m == alts0.len(),
                    m == master@.alternatives.len(),
                    0 <= k <= m,
                    forall|j: int| k <= j < m ==> master@.alternatives[j] == alts0[j],
                    forall|j: int| 0 <= j < k ==> master@.alternatives[j] == rewrite_alternative(
                        alts0[j],
                        session_id@,
                        base_url@,
                        origin_base@,
                    ),
                    master@ == (MasterPlaylistV {
                        variants: vars_done,
                        alternatives: master@.alternatives,
                        ..mv0
                    }),
                decreases m - k,
            {
                let ghost before = master@.alternatives;
                let alt = &mut master.alternatives[k];
                rewrite_alternative_exec(alt, session_id, base_url, origin_base);
                proof {
                    assert(master@.alternatives =~= before.update(
                        k as int,
                        rewrite_alternative(before[k as int], session_id@, base_url@,
                            origin_base@),
                    ));
                }
                k += 1;
            }
            proof {
                assert(master@.alternatives =~= alts0.map_values(
                    |a: AlternativeMediaV| rewrite_alternative(
                        a,
                        session_id@,
                        base_url@,
                        origin_base@,
                    ),
                ));
            }
            Ok(Playlist::MasterPlaylist(master))
        },
    }
}


/// The track qualifier for an alternative medium, from its TYPE
/// attribute.
fn track_of(attrs: &Vec<XAttr>) -> (r: &'static str)
    ensures
        r@ == track_param(attrs@.map_values(|a: XAttr| a@)),
{
    let ghost av = attrs@.map_values(|a: XAttr| a@);
    let n = attrs.len();
    let mut t: usize = 0;
    proof {
        reveal_strlit("");
        assert(av.subrange(0, n as int) =~= av);
    }
    while t < n
        invariant
            n == av.len(),
            av == attrs@.map_values(|a: XAttr| a@),
            0 <= t <= n,
            find_attr(av, "TYPE"@) == find_attr(av.subrange(t as int, n as int), "TYPE"@),
        decreases n - t,
    {
        proof {
            assert(av[t as int] == attrs@[t as int]@);
            assert(av.subrange(t as int, n as int).first() == av[t as int]);
            assert(av.subrange(t as int, n as int).drop_first() =~= av.subrange(t + 1, n as int));
        }
        if str_eq(attrs[t].key.as_str(), "TYPE") {
            assert(find_attr(av, "TYPE"@) == Some(av[t as int]));
            if str_eq(attrs[t].value.as_str(), "SUBTITLES") {
                return "&track=subtitles";
            } else if str_eq(attrs[t].value.as_str(), "AUDIO") {
                return "&track=audio";
            } else {
                proof {
                    reveal_strlit("");
                }
                return "";
            }
        }
        t += 1;
    }
    proof {
        assert(av.subrange(n as int, n as int) =~= Seq::<XAttrV>::empty());
        reveal_strlit("");
    }
    ""
}

/// Rewrite one alternative medium's URI attribute in place.
fn rewrite_alternative_exec(
    alt: &mut AlternativeMedia,
    session_id: &str,
    base_url: &str,
    origin_base: &str,
)
    ensures
        final(alt)@ == rewrite_alternative(old(alt)@, session_id@, base_url@, origin_base@),
{
    let ghost attrs0 = alt@.attrs;
    let track: &str = track_of(&alt.attrs);
    let n = alt.attrs.len();

    // rewrite the URI attribute
    let mut i: usize = 0;
    while i < n
        invariant
            n == attrs0.len(),
            n == alt@.attrs.len(),
            0 <= i <= n,
            track@ == track_param(attrs0),
            forall|j: int| i <= j < n ==> alt@.attrs[j] == attrs0[j],
            forall|j: int| 0 <= j < i ==> alt@.attrs[j] == (if attrs0[j].key == "URI"@ {
                XAttrV {
                    value: rendition_uri(
                        attrs0[j].value,
                        session_id@,
                        base_url@,
                        origin_base@,
                        track_param(attrs0),
                    ),
                    ..attrs0[j]
                }
            } else {
                attrs0[j]
            }),
        decreases n - i,
    {
        proof {
            assert(attrs0[i as int] == alt.attrs@[i as int]@);
        }
        if str_eq(alt.attrs[i].key.as_str(), "URI") {
            let new_uri = rewrite_one_rendition(
                alt.attrs[i].value.as_str(),
                session_id,
                base_url,
                origin_base,
                track,
            );
            let ghost before = alt@.attrs;
            alt.attrs[i].value = new_uri;
            proof {
                assert(alt@.attrs =~= before.update(
                    i as int,
                    XAttrV { value: new_uri@, ..before[i as int] },
                ));
            }
        }
        i += 1;
    }
    proof {
        assert(alt@.attrs =~= rewrite_alternative(
            AlternativeMediaV { attrs: attrs0 },
            session_id@,
            base_url@,
            origin_base@,
        ).attrs);
    }
}

/// Rewriting content URLs twice gives the same playlist as once: the
/// second pass finds every rewritten URI already under `/stitch/` and
/// leaves it alone.
pub proof fn lemma_rewrite_idempotent(
    p: PlaylistV,
    sid: Seq<char>,
    base: Seq<char>,
    origin_base: Seq<char>,
)
    ensures
        rewrite_playlist(rewrite_playlist(p, sid, base, origin_base), sid, base, origin_base)
            == rewrite_playlist(p, sid, base, origin_base),
{
    match p {
        PlaylistV::MasterPlaylist(_) => {},
        PlaylistV::MediaPlaylist(m) => {
            let once = rewrite_media(m, sid, base, origin_base);
            let twice = rewrite_media(once, sid, base, origin_base);
            assert forall|j: int| 0 <= j < once.segments.len() implies twice.segments[j]
                == once.segments[j] by {
                lemma_rewritten_uri_stable(m.segments[j].uri, sid, base, origin_base);
            }
            assert(twice.segments =~= once.segments);
        },
    }
}

/// A rewritten URI is stable under a second rewrite.
proof fn lemma_rewritten_uri_stable(
    uri: Seq<char>,
    sid: Seq<char>,
    base: Seq<char>,
    origin_base: Seq<char>,
)
    ensures
        rewritten_uri(rewritten_uri(uri, sid, base, origin_base), sid, base, origin_base)
            == rewritten_uri(uri, sid, base, origin_base),
{
    let once = rewritten_uri(uri, sid, base, origin_base);
    if contains_seq(uri, "/stitch/"@) {
        assert(once == uri);
    } else {
        assert(crate::text::occurs_at(once, "/stitch/"@, base.len() as int)) by {
            assert(once.subrange(base.len() as int, base.len() + "/stitch/"@.len() as int)
                =~= "/stitch/"@);
        }
        assert(contains_seq(once, "/stitch/"@));
    }
}

} // verus!
