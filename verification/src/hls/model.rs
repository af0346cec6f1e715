//! The in-memory playlist model.  Durations are integer milliseconds;
//! program-date-time stamps are milliseconds since the Unix epoch.

use vstd::prelude::*;

verus! {

/// A tag the parser does not model structurally, split at the first colon
/// with the leading `#EXT-` stripped (so `#EXT-X-CUE-OUT:30` is held as
/// tag `X-CUE-OUT`, rest `30`).
#[derive(Clone, Debug, PartialEq)]
pub struct ExtTag {
    pub tag: String,
    pub rest: Option<String>,
}

/// One attribute of a `#EXT-X-DATERANGE` tag beyond the modelled ones.
#[derive(Clone, Debug, PartialEq)]
pub struct XAttr {
    pub key: String,
    pub value: String,
    /// Whether the value is written inside double quotes.
    pub quoted: bool,
}

/// A `#EXT-X-DATERANGE` tag.
#[derive(Clone, Debug, PartialEq)]
pub struct DateRange {
    pub id: String,
    pub class: Option<String>,
    /// RFC 3339 text, written as given.
    pub start_date: String,
    pub end_date: Option<String>,
    pub duration_ms: Option<u64>,
    pub planned_duration_ms: Option<u64>,
    /// `X-`-prefixed client attributes, in writing order.
    pub x_attrs: Vec<XAttr>,
    pub end_on_next: bool,
}

/// One media segment.
#[derive(Clone, Debug, PartialEq)]
pub struct MediaSegment {
    pub uri: String,
    pub duration_ms: u64,
    pub title: Option<String>,
    pub discontinuity: bool,
    /// Milliseconds since the Unix epoch, when the segment carries a
    /// `#EXT-X-PROGRAM-DATE-TIME`.
    pub program_date_time: Option<i64>,
    pub daterange: Option<DateRange>,
    pub unknown_tags: Vec<ExtTag>,
}

/// A media playlist.
#[derive(Clone, Debug, PartialEq)]
pub struct MediaPlaylist {
    pub version: Option<u64>,
    pub target_duration_ms: u64,
    pub media_sequence: u64,
    pub discontinuity_sequence: u64,
    pub end_list: bool,
    pub segments: Vec<MediaSegment>,
    /// Unknown tags after the last segment URI.
    pub trailing_tags: Vec<ExtTag>,
}

/// One `#EXT-X-STREAM-INF` entry: the attribute text as written, and the
/// URI from the following line.
#[derive(Clone, Debug, PartialEq)]
pub struct VariantStream {
    pub attrs: String,
    pub uri: String,
}

/// One `#EXT-X-MEDIA` entry, as an ordered attribute list.
#[derive(Clone, Debug, PartialEq)]
pub struct AlternativeMedia {
    pub attrs: Vec<XAttr>,
}

/// A master playlist.
#[derive(Clone, Debug, PartialEq)]
pub struct MasterPlaylist {
    pub version: Option<u64>,
    pub variants: Vec<VariantStream>,
    pub alternatives: Vec<AlternativeMedia>,
    /// Header tags not modelled structurally.
    pub other_tags: Vec<ExtTag>,
}

/// A parsed playlist of either kind.
#[derive(Clone, Debug, PartialEq)]
pub enum Playlist {
    MasterPlaylist(MasterPlaylist),
    MediaPlaylist(MediaPlaylist),
}

/// Mathematical view of an `ExtTag`.
pub ghost struct ExtTagV {
    pub tag: Seq<char>,
    pub rest: Option<Seq<char>>,
}

impl View for ExtTag {
    type V = ExtTagV;

    open spec fn view(&self) -> ExtTagV {
        ExtTagV {
            tag: self.tag@,
            rest: match self.rest {
                Some(r) => Some(r@),
                None => None,
            },
        }
    }
}

/// Mathematical view of an `XAttr`.
pub ghost struct XAttrV {
    pub key: Seq<char>,
    pub value: Seq<char>,
    pub quoted: bool,
}

impl View for XAttr {
    type V = XAttrV;

    open spec fn view(&self) -> XAttrV {
        XAttrV { key: self.key@, value: self.value@, quoted: self.quoted }
    }
}

/// Mathematical view of a `DateRange`.
pub ghost struct DateRangeV {
    pub id: Seq<char>,
    pub class: Option<Seq<char>>,
    pub start_date: Seq<char>,
    pub end_date: Option<Seq<char>>,
    pub duration_ms: Option<u64>,
    pub planned_duration_ms: Option<u64>,
    pub x_attrs: Seq<XAttrV>,
    pub end_on_next: bool,
}

impl View for DateRange {
    type V = DateRangeV;

    open spec fn view(&self) -> DateRangeV {
        DateRangeV {
            id: self.id@,
            class: match self.class {
                Some(c) => Some(c@),
                None => None,
            },
            start_date: self.start_date@,
            end_date: match self.end_date {
                Some(e) => Some(e@),
                None => None,
            },
            duration_ms: self.duration_ms,
            planned_duration_ms: self.planned_duration_ms,
            x_attrs: self.x_attrs@.map_values(|a: XAttr| a@),
            end_on_next: self.end_on_next,
        }
    }
}

/// Mathematical view of a `MediaSegment`.
pub ghost struct SegV {
    pub uri: Seq<char>,
    pub duration_ms: u64,
    pub title: Option<Seq<char>>,
    pub discontinuity: bool,
    pub program_date_time: Option<i64>,
    pub daterange: Option<DateRangeV>,
    pub unknown_tags: Seq<ExtTagV>,
}

impl View for MediaSegment {
    type V = SegV;

    open spec fn view(&self) -> SegV {
        SegV {
            uri: self.uri@,
            duration_ms: self.duration_ms,
            title: match self.title {
                Some(t) => Some(t@),
                None => None,
            },
            discontinuity: self.discontinuity,
            program_date_time: self.program_date_time,
            daterange: match self.daterange {
                Some(d) => Some(d@),
                None => None,
            },
            unknown_tags: self.unknown_tags@.map_values(|t: ExtTag| t@),
        }
    }
}

/// Mathematical view of a `MediaPlaylist`.
pub ghost struct MediaPlaylistV {
    pub version: Option<u64>,
    pub target_duration_ms: u64,
    pub media_sequence: u64,
    pub discontinuity_sequence: u64,
    pub end_list: bool,
    pub segments: Seq<SegV>,
    pub trailing_tags: Seq<ExtTagV>,
}

impl View for MediaPlaylist {
    type V = MediaPlaylistV;

    open spec fn view(&self) -> MediaPlaylistV {
        MediaPlaylistV {
            version: self.version,
            target_duration_ms: self.target_duration_ms,
            media_sequence: self.media_sequence,
            discontinuity_sequence: self.discontinuity_sequence,
            end_list: self.end_list,
            segments: self.segments@.map_values(|s: MediaSegment| s@),
            trailing_tags: self.trailing_tags@.map_values(|t: ExtTag| t@),
        }
    }
}

/// Mathematical view of a `VariantStream`.
pub ghost struct VariantStreamV {
    pub attrs: Seq<char>,
    pub uri: Seq<char>,
}

impl View for VariantStream {
    type V = VariantStreamV;

    open spec fn view(&self) -> VariantStreamV {
        VariantStreamV { attrs: self.attrs@, uri: self.uri@ }
    }
}

/// Mathematical view of an `AlternativeMedia`.
pub ghost struct AlternativeMediaV {
    pub attrs: Seq<XAttrV>,
}

impl View for AlternativeMedia {
    type V = AlternativeMediaV;

    open spec fn view(&self) -> AlternativeMediaV {
        AlternativeMediaV { attrs: self.attrs@.map_values(|a: XAttr| a@) }
    }
}

/// Mathematical view of a `MasterPlaylist`.
pub ghost struct MasterPlaylistV {
    pub version: Option<u64>,
    pub variants: Seq<VariantStreamV>,
    pub alternatives: Seq<AlternativeMediaV>,
    pub other_tags: Seq<ExtTagV>,
}

impl View for MasterPlaylist {
    type V = MasterPlaylistV;

    open spec fn view(&self) -> MasterPlaylistV {
        MasterPlaylistV {
            version: self.version,
            variants: self.variants@.map_values(|v: VariantStream| v@),
            alternatives: self.alternatives@.map_values(|a: AlternativeMedia| a@),
            other_tags: self.other_tags@.map_values(|t: ExtTag| t@),
        }
    }
}

/// Mathematical view of a `Playlist`.
pub ghost enum PlaylistV {
    MasterPlaylist(MasterPlaylistV),
    MediaPlaylist(MediaPlaylistV),
}

impl View for Playlist {
    type V = PlaylistV;

    open spec fn view(&self) -> PlaylistV {
        match self {
            Playlist::MasterPlaylist(m) => PlaylistV::MasterPlaylist(m@),
            Playlist::MediaPlaylist(m) => PlaylistV::MediaPlaylist(m@),
        }
    }
}

impl ExtTag {
    /// An exact copy.
    pub fn duplicate_tag(&self) -> (r: ExtTag)
        ensures
            r@ == self@,
    {
        let rest = match &self.rest {
            Some(x) => Some(x.clone()),
            None => None,
        };
        ExtTag { tag: self.tag.clone(), rest }
    }
}

impl MediaSegment {
    /// An exact copy.
    pub fn duplicate(&self) -> (r: MediaSegment)
        ensures
            r@ == self@,
    {
        let title = match &self.title {
            Some(t) => Some(t.clone()),
            None => None,
        };
        let daterange = match &self.daterange {
            Some(d) => Some(d.duplicate()),
            None => None,
        };
        let mut tags: Vec<ExtTag> = Vec::new();
        let n = self.unknown_tags.len();
        let mut i: usize = 0;
        while i < n
            invariant
                n == self.unknown_tags@.len(),
                0 <= i <= n,
                tags@.len() == i,
                forall|j: int| 0 <= j < i ==> tags@[j]@ == self.unknown_tags@[j]@,
            decreases n - i,
        {
            let t = &self.unknown_tags[i];
            let rest = match &t.rest {
                Some(r) => Some(r.clone()),
                None => None,
            };
            tags.push(ExtTag { tag: t.tag.clone(), rest });
            i += 1;
        }
        let r = MediaSegment {
            uri: self.uri.clone(),
            duration_ms: self.duration_ms,
            title,
            discontinuity: self.discontinuity,
            program_date_time: self.program_date_time,
            daterange,
            unknown_tags: tags,
        };
        assert(r@.unknown_tags =~= self@.unknown_tags);
        r
    }
}

impl DateRange {
    /// An exact copy.
    pub fn duplicate(&self) -> (r: DateRange)
        ensures
            r@ == self@,
    {
        let class = match &self.class {
            Some(c) => Some(c.clone()),
            None => None,
        };
        let end_date = match &self.end_date {
            Some(e) => Some(e.clone()),
            None => None,
        };
        let mut xs: Vec<XAttr> = Vec::new();
        let n = self.x_attrs.len();
        let mut i: usize = 0;
        while i < n
            invariant
                n == self.x_attrs@.len(),
                0 <= i <= n,
                xs@.len() == i,
                forall|j: int| 0 <= j < i ==> xs@[j]@ == self.x_attrs@[j]@,
            decreases n - i,
        {
            let a = &self.x_attrs[i];
            xs.push(XAttr { key: a.key.clone(), value: a.value.clone(), quoted: a.quoted });
            i += 1;
        }
        let r = DateRange {
            id: self.id.clone(),
            class,
            start_date: self.start_date.clone(),
            end_date,
            duration_ms: self.duration_ms,
            planned_duration_ms: self.planned_duration_ms,
            x_attrs: xs,
            end_on_next: self.end_on_next,
        };
        assert(r@.x_attrs =~= self@.x_attrs);
        r
    }
}

impl MediaSegment {
    /// A plain segment with a URI and a duration and nothing else set.
    pub fn plain(uri: String, duration_ms: u64) -> (r: MediaSegment)
        ensures
            r.uri == uri,
            r.duration_ms == duration_ms,
            r.title is None,
            !r.discontinuity,
            r.program_date_time is None,
            r.daterange is None,
            r.unknown_tags@.len() == 0,
    {
        MediaSegment {
            uri,
            duration_ms,
            title: None,
            discontinuity: false,
            program_date_time: None,
            daterange: None,
            unknown_tags: Vec::new(),
        }
    }
}

impl Default for MediaPlaylist {
    /// An empty playlist with no segments and all headers unset.
    fn default() -> (r: MediaPlaylist)
        ensures
            r.version is None,
            r.target_duration_ms == 0,
            r.media_sequence == 0,
            r.discontinuity_sequence == 0,
            !r.end_list,
            r.segments@.len() == 0,
            r.trailing_tags@.len() == 0,
    {
        MediaPlaylist {
            version: None,
            target_duration_ms: 0,
            media_sequence: 0,
            discontinuity_sequence: 0,
            end_list: false,
            segments: Vec::new(),
            trailing_tags: Vec::new(),
        }
    }
}

impl Default for MasterPlaylist {
    /// An empty master playlist.
    fn default() -> (r: MasterPlaylist)
        ensures
            r.version is None,
            r.variants@.len() == 0,
            r.alternatives@.len() == 0,
            r.other_tags@.len() == 0,
    {
        MasterPlaylist {
            version: None,
            variants: Vec::new(),
            alternatives: Vec::new(),
            other_tags: Vec::new(),
        }
    }
}

} // verus!
