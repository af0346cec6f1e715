//! The VAST document reader as a verified fold over XML tokens.
//!
//! The host program tokenizes the XML (names, attributes, text and
//! CDATA as plain strings) and feeds the tokens here one by one; every
//! grammar decision — which elements are recognized, how attributes
//! default, how text is collected and trimmed, when a partial tree is
//! committed — is made and specified in this module.

use vstd::prelude::*;
use crate::ad::vast::{
    Creative, CreativeV, InLineAd, InLineAdV, LinearAd, LinearAdV, MediaFile, MediaFileV,
    TrackingEvent, TrackingEventV, VastAd, VastAdType, VastAdTypeV, VastAdV, VastResponse,
    VastResponseV, WrapperAd, WrapperAdV, parse_duration, vast_duration_ms,
};
use crate::num::{all_digits, dec_val, parse_u64};
use crate::text::{str_eq, trim, trim_spec};

verus! {

/// One XML token, as plain values.  Text and CDATA carry their content
/// already unescaped.
pub enum XmlToken {
    Start { name: String, attrs: Vec<(String, String)> },
    Text(String),
    CData(String),
    End { name: String },
    Eof,
}

/// Mathematical view of an `XmlToken`.
#[verifier::ext_equal]
pub ghost enum XmlTokenV {
    Start { name: Seq<char>, attrs: Seq<(Seq<char>, Seq<char>)> },
    Text(Seq<char>),
    CData(Seq<char>),
    End { name: Seq<char> },
    Eof,
}

impl View for XmlToken {
    type V = XmlTokenV;

    open spec fn view(&self) -> XmlTokenV {
        match self {
            XmlToken::Start { name, attrs } => XmlTokenV::Start {
                name: name@,
                attrs: attrs@.map_values(|a: (String, String)| (a.0@, a.1@)),
            },
            XmlToken::Text(s) => XmlTokenV::Text(s@),
            XmlToken::CData(s) => XmlTokenV::CData(s@),
            XmlToken::End { name } => XmlTokenV::End { name: name@ },
            XmlToken::Eof => XmlTokenV::Eof,
        }
    }
}

/// The element whose text is being collected.
#[derive(Clone, Copy, Debug, PartialEq, Eq, Structural)]
pub enum TextTarget {
    AdSystem,
    AdTitle,
    Impression,
    ErrorUrl,
    AdTagUri,
    Duration,
    MediaFileUrl,
    TrackingUrl,
}

/// The end-tag name that closes a text target.
pub open spec fn target_name(t: TextTarget) -> Seq<char> {
    match t {
        TextTarget::AdSystem => "AdSystem"@,
        TextTarget::AdTitle => "AdTitle"@,
        TextTarget::Impression => "Impression"@,
        TextTarget::ErrorUrl => "Error"@,
        TextTarget::AdTagUri => "VASTAdTagURI"@,
        TextTarget::Duration => "Duration"@,
        TextTarget::MediaFileUrl => "MediaFile"@,
        TextTarget::TrackingUrl => "Tracking"@,
    }
}

/// Where the reader stands in the fixed VAST element nesting, with the
/// partial values of every enclosing level.
pub enum VastMode {
    Top,
    Ad { id: String },
    InLine { id: String, inline: InLineAd },
    Creatives { id: String, inline: InLineAd, list: Vec<Creative> },
    Creative { id: String, inline: InLineAd, list: Vec<Creative>, cid: String, linear: Option<LinearAd> },
    Linear { id: String, inline: InLineAd, list: Vec<Creative>, cid: String, lin: LinearAd },
    MediaFiles {
        id: String,
        inline: InLineAd,
        list: Vec<Creative>,
        cid: String,
        lin: LinearAd,
        files: Vec<MediaFile>,
        pending: Option<MediaFile>,
    },
    LinearTracking {
        id: String,
        inline: InLineAd,
        list: Vec<Creative>,
        cid: String,
        lin: LinearAd,
        events: Vec<TrackingEvent>,
        pending: Option<String>,
    },
    Wrapper { id: String, wrapper: WrapperAd },
    WrapperTracking {
        id: String,
        wrapper: WrapperAd,
        events: Vec<TrackingEvent>,
        pending: Option<String>,
    },
}

/// Mathematical view of a `VastMode`.
#[verifier::ext_equal]
pub ghost enum VastModeV {
    Top,
    Ad { id: Seq<char> },
    InLine { id: Seq<char>, inline: InLineAdV },
    Creatives { id: Seq<char>, inline: InLineAdV, list: Seq<CreativeV> },
    Creative {
        id: Seq<char>,
        inline: InLineAdV,
        list: Seq<CreativeV>,
        cid: Seq<char>,
        linear: Option<LinearAdV>,
    },
    Linear { id: Seq<char>, inline: InLineAdV, list: Seq<CreativeV>, cid: Seq<char>, lin: LinearAdV },
    MediaFiles {
        id: Seq<char>,
        inline: InLineAdV,
        list: Seq<CreativeV>,
        cid: Seq<char>,
        lin: LinearAdV,
        files: Seq<MediaFileV>,
        pending: Option<MediaFileV>,
    },
    LinearTracking {
        id: Seq<char>,
        inline: InLineAdV,
        list: Seq<CreativeV>,
        cid: Seq<char>,
        lin: LinearAdV,
        events: Seq<TrackingEventV>,
        pending: Option<Seq<char>>,
    },
    Wrapper { id: Seq<char>, wrapper: WrapperAdV },
    WrapperTracking {
        id: Seq<char>,
        wrapper: WrapperAdV,
        events: Seq<TrackingEventV>,
        pending: Option<Seq<char>>,
    },
}

impl View for VastMode {
    type V = VastModeV;

    open spec fn view(&self) -> VastModeV {
        match self {
            VastMode::Top => VastModeV::Top,
            VastMode::Ad { id } => VastModeV::Ad { id: id@ },
            VastMode::InLine { id, inline } => VastModeV::InLine { id: id@, inline: inline@ },
            VastMode::Creatives { id, inline, list } => VastModeV::Creatives {
                id: id@,
                inline: inline@,
                list: list@.map_values(|c: Creative| c@),
            },
            VastMode::Creative { id, inline, list, cid, linear } => VastModeV::Creative {
                id: id@,
                inline: inline@,
                list: list@.map_values(|c: Creative| c@),
                cid: cid@,
                linear: match linear {
                    Some(l) => Some(l@),
                    None => None,
                },
            },
            VastMode::Linear { id, inline, list, cid, lin } => VastModeV::Linear {
                id: id@,
                inline: inline@,
                list: list@.map_values(|c: Creative| c@),
                cid: cid@,
                lin: lin@,
            },
            VastMode::MediaFiles { id, inline, list, cid, lin, files, pending } => VastModeV::MediaFiles {
                id: id@,
                inline: inline@,
                list: list@.map_values(|c: Creative| c@),
                cid: cid@,
                lin: lin@,
                files: files@.map_values(|f: MediaFile| f@),
                pending: match pending {
                    Some(f) => Some(f@),
                    None => None,
                },
            },
            VastMode::LinearTracking { id, inline, list, cid, lin, events, pending } => VastModeV::LinearTracking {
                id: id@,
                inline: inline@,
                list: list@.map_values(|c: Creative| c@),
                cid: cid@,
                lin: lin@,
                events: events@.map_values(|e: TrackingEvent| e@),
                pending: match pending {
                    Some(p) => Some(p@),
                    None => None,
                },
            },
            VastMode::Wrapper { id, wrapper } => VastModeV::Wrapper { id: id@, wrapper: wrapper@ },
            VastMode::WrapperTracking { id, wrapper, events, pending } => VastModeV::WrapperTracking {
                id: id@,
                wrapper: wrapper@,
                events: events@.map_values(|e: TrackingEvent| e@),
                pending: match pending {
                    Some(p) => Some(p@),
                    None => None,
                },
            },
        }
    }
}

/// The reader's whole state.
pub struct VastParseState {
    pub version: String,
    pub ads: Vec<VastAd>,
    pub mode: VastMode,
    pub text: String,
    pub reading: Option<TextTarget>,
}

/// Mathematical view of a `VastParseState`.
#[verifier::ext_equal]
pub ghost struct VastParseStateV {
    pub version: Seq<char>,
    pub ads: Seq<VastAdV>,
    pub mode: VastModeV,
    pub text: Seq<char>,
    pub reading: Option<TextTarget>,
}

impl View for VastParseState {
    type V = VastParseStateV;

    open spec fn view(&self) -> VastParseStateV {
        VastParseStateV {
            version: self.version@,
            ads: self.ads@.map_values(|a: VastAd| a@),
            mode: self.mode@,
            text: self.text@,
            reading: self.reading,
        }
    }
}

impl VastParseState {
    /// The state before the first token.
    pub fn start() -> (r: VastParseState)
        ensures
            r@ == init_state(),
    {
        let r = VastParseState {
            version: String::new(),
            ads: Vec::new(),
            mode: VastMode::Top,
            text: String::new(),
            reading: None,
        };
        proof {
            assert(r@ =~~= init_state());
        }
        r
    }
}

/// The initial reader state.
pub open spec fn init_state() -> VastParseStateV {
    VastParseStateV {
        version: Seq::empty(),
        ads: Seq::empty(),
        mode: VastModeV::Top,
        text: Seq::empty(),
        reading: None,
    }
}

/// First value of a named attribute, if present.
pub open spec fn attr_of(attrs: Seq<(Seq<char>, Seq<char>)>, name: Seq<char>) -> Option<Seq<char>>
    decreases attrs.len(),
{
    if attrs.len() == 0 {
        None
    } else if attrs.first().0 == name {
        Some(attrs.first().1)
    } else {
        attr_of(attrs.drop_first(), name)
    }
}

/// A named attribute, defaulting to the empty string.
pub open spec fn attr_or_empty(attrs: Seq<(Seq<char>, Seq<char>)>, name: Seq<char>) -> Seq<char> {
    match attr_of(attrs, name) {
        Some(v) => v,
        None => Seq::empty(),
    }
}

/// A numeric attribute as `u32`, zero when absent or unreadable.
pub open spec fn attr_u32(attrs: Seq<(Seq<char>, Seq<char>)>, name: Seq<char>) -> u32 {
    match attr_of(attrs, name) {
        Some(v) => if v.len() > 0 && all_digits(v) && dec_val(v) <= u32::MAX as nat {
            dec_val(v) as u32
        } else {
            0u32
        },
        None => 0u32,
    }
}

/// A numeric attribute as `Option<u32>`, absent when unreadable.
pub open spec fn attr_opt_u32(attrs: Seq<(Seq<char>, Seq<char>)>, name: Seq<char>) -> Option<u32> {
    match attr_of(attrs, name) {
        Some(v) => if v.len() > 0 && all_digits(v) && dec_val(v) <= u32::MAX as nat {
            Some(dec_val(v) as u32)
        } else {
            None
        },
        None => None,
    }
}

/// An empty inline ad under construction.
pub open spec fn empty_inline() -> InLineAdV {
    InLineAdV {
        ad_system: Seq::empty(),
        ad_title: Seq::empty(),
        creatives: Seq::empty(),
        impression_urls: Seq::empty(),
        error_url: None,
    }
}

/// An empty wrapper ad under construction.
pub open spec fn empty_wrapper() -> WrapperAdV {
    WrapperAdV {
        ad_tag_uri: Seq::empty(),
        impression_urls: Seq::empty(),
        tracking_events: Seq::empty(),
    }
}

/// An empty linear creative under construction.
pub open spec fn empty_linear() -> LinearAdV {
    LinearAdV { duration_ms: 0, media_files: Seq::empty(), tracking_events: Seq::empty() }
}

/// The trimmed text committed into the slot named by the reading
/// target; the state's text and target are cleared.
pub open spec fn commit_spec(st: VastParseStateV) -> VastParseStateV {
    match st.reading {
        None => st,
        Some(t) => {
            let trimmed = trim_spec(st.text);
            let cleared = VastParseStateV { text: Seq::empty(), reading: None, ..st };
            match t {
                TextTarget::AdSystem => match st.mode {
                    VastModeV::InLine { id, inline } => VastParseStateV {
                        mode: VastModeV::InLine {
                            id,
                            inline: InLineAdV { ad_system: trimmed, ..inline },
                        },
                        ..cleared
                    },
                    _ => cleared,
                },
                TextTarget::AdTitle => match st.mode {
                    VastModeV::InLine { id, inline } => VastParseStateV {
                        mode: VastModeV::InLine {
                            id,
                            inline: InLineAdV { ad_title: trimmed, ..inline },
                        },
                        ..cleared
                    },
                    _ => cleared,
                },
                TextTarget::Impression => match st.mode {
                    VastModeV::InLine { id, inline } => if trimmed.len() > 0 {
                        VastParseStateV {
                            mode: VastModeV::InLine {
                                id,
                                inline: InLineAdV {
                                    impression_urls: inline.impression_urls.push(trimmed),
                                    ..inline
                                },
                            },
                            ..cleared
                        }
                    } else {
                        VastParseStateV { mode: VastModeV::InLine { id, inline }, ..cleared }
                    },
                    VastModeV::Wrapper { id, wrapper } => if trimmed.len() > 0 {
                        VastParseStateV {
                            mode: VastModeV::Wrapper {
                                id,
                                wrapper: WrapperAdV {
                                    impression_urls: wrapper.impression_urls.push(trimmed),
                                    ..wrapper
                                },
                            },
                            ..cleared
                        }
                    } else {
                        VastParseStateV { mode: VastModeV::Wrapper { id, wrapper }, ..cleared }
                    },
                    _ => cleared,
                },
                TextTarget::ErrorUrl => match st.mode {
                    VastModeV::InLine { id, inline } => VastParseStateV {
                        mode: VastModeV::InLine {
                            id,
                            inline: InLineAdV { error_url: Some(trimmed), ..inline },
                        },
                        ..cleared
                    },
                    _ => cleared,
                },
                TextTarget::AdTagUri => match st.mode {
                    VastModeV::Wrapper { id, wrapper } => VastParseStateV {
                        mode: VastModeV::Wrapper {
                            id,
                            wrapper: WrapperAdV { ad_tag_uri: trimmed, ..wrapper },
                        },
                        ..cleared
                    },
                    _ => cleared,
                },
                TextTarget::Duration => match st.mode {
                    VastModeV::Linear { id, inline, list, cid, lin } => VastParseStateV {
                        mode: VastModeV::Linear {
                            id,
                            inline,
                            list,
                            cid,
                            lin: LinearAdV { duration_ms: vast_duration_ms(st.text), ..lin },
                        },
                        ..cleared
                    },
                    _ => cleared,
                },
                TextTarget::MediaFileUrl => match st.mode {
                    VastModeV::MediaFiles { id, inline, list, cid, lin, files, pending } => match pending {
                        Some(f) => VastParseStateV {
                            mode: VastModeV::MediaFiles {
                                id,
                                inline,
                                list,
                                cid,
                                lin,
                                files: files.push(MediaFileV { url: trimmed, ..f }),
                                pending: None,
                            },
                            ..cleared
                        },
                        None => VastParseStateV {
                            mode: VastModeV::MediaFiles {
                                id,
                                inline,
                                list,
                                cid,
                                lin,
                                files,
                                pending: None,
                            },
                            ..cleared
                        },
                    },
                    _ => cleared,
                },
                TextTarget::TrackingUrl => match st.mode {
                    VastModeV::LinearTracking { id, inline, list, cid, lin, events, pending } => match pending {
                        Some(ev) => VastParseStateV {
                            mode: VastModeV::LinearTracking {
                                id,
                                inline,
                                list,
                                cid,
                                lin,
                                events: events.push(TrackingEventV { event: ev, url: trimmed }),
                                pending: None,
                            },
                            ..cleared
                        },
                        None => VastParseStateV {
                            mode: VastModeV::LinearTracking {
                                id,
                                inline,
                                list,
                                cid,
                                lin,
                                events,
                                pending: None,
                            },
                            ..cleared
                        },
                    },
                    VastModeV::WrapperTracking { id, wrapper, events, pending } => match pending {
                        Some(ev) => VastParseStateV {
                            mode: VastModeV::WrapperTracking {
                                id,
                                wrapper,
                                events: events.push(TrackingEventV { event: ev, url: trimmed }),
                                pending: None,
                            },
                            ..cleared
                        },
                        None => VastParseStateV {
                            mode: VastModeV::WrapperTracking {
                                id,
                                wrapper,
                                events,
                                pending: None,
                            },
                            ..cleared
                        },
                    },
                    _ => cleared,
                },
            }
        },
    }
}

/// The ad list once the document ends: a partial subtree at any level
/// is completed with what it has and committed, as the nested reader
/// loops of the grammar do at end of input.
pub open spec fn eof_ads(ads: Seq<VastAdV>, mode: VastModeV) -> Seq<VastAdV> {
    match mode {
        VastModeV::Top => ads,
        VastModeV::Ad { .. } => ads,
        VastModeV::InLine { id, inline } => ads.push(
            VastAdV { id, ad_type: VastAdTypeV::InLine(inline) },
        ),
        VastModeV::Creatives { id, inline, list } => ads.push(
            VastAdV {
                id,
                ad_type: VastAdTypeV::InLine(InLineAdV { creatives: list, ..inline }),
            },
        ),
        VastModeV::Creative { id, inline, list, cid, linear } => ads.push(
            VastAdV {
                id,
                ad_type: VastAdTypeV::InLine(
                    InLineAdV {
                        creatives: list.push(CreativeV { id: cid, linear }),
                        ..inline
                    },
                ),
            },
        ),
        VastModeV::Linear { id, inline, list, cid, lin } => ads.push(
            VastAdV {
                id,
                ad_type: VastAdTypeV::InLine(
                    InLineAdV {
                        creatives: list.push(CreativeV { id: cid, linear: Some(lin) }),
                        ..inline
                    },
                ),
            },
        ),
        VastModeV::MediaFiles { id, inline, list, cid, lin, files, .. } => ads.push(
            VastAdV {
                id,
                ad_type: VastAdTypeV::InLine(
                    InLineAdV {
                        creatives: list.push(
                            CreativeV {
                                id: cid,
                                linear: Some(LinearAdV { media_files: files, ..lin }),
                            },
                        ),
                        ..inline
                    },
                ),
            },
        ),
        VastModeV::LinearTracking { id, inline, list, cid, lin, events, .. } => ads.push(
            VastAdV {
                id,
                ad_type: VastAdTypeV::InLine(
                    InLineAdV {
                        creatives: list.push(
                            CreativeV {
                                id: cid,
                                linear: Some(LinearAdV { tracking_events: events, ..lin }),
                            },
                        ),
                        ..inline
                    },
                ),
            },
        ),
        VastModeV::Wrapper { id, wrapper } => ads.push(
            VastAdV { id, ad_type: VastAdTypeV::Wrapper(wrapper) },
        ),
        VastModeV::WrapperTracking { id, wrapper, events, .. } => ads.push(
            VastAdV {
                id,
                ad_type: VastAdTypeV::Wrapper(
                    WrapperAdV { tracking_events: events, ..wrapper },
                ),
            },
        ),
    }
}

/// The state at end of input.
pub open spec fn eof_spec(st: VastParseStateV) -> VastParseStateV {
    VastParseStateV {
        version: st.version,
        ads: eof_ads(st.ads, st.mode),
        mode: VastModeV::Top,
        text: Seq::empty(),
        reading: None,
    }
}

/// An opening tag applied outside text collection.
pub open spec fn start_spec(
    st: VastParseStateV,
    name: Seq<char>,
    attrs: Seq<(Seq<char>, Seq<char>)>,
) -> VastParseStateV {
    match st.mode {
        VastModeV::Top => if name == "VAST"@ {
            VastParseStateV { version: attr_or_empty(attrs, "version"@), ..st }
        } else if name == "Ad"@ {
            VastParseStateV { mode: VastModeV::Ad { id: attr_or_empty(attrs, "id"@) }, ..st }
        } else {
            st
        },
        VastModeV::Ad { id } => if name == "InLine"@ {
            VastParseStateV { mode: VastModeV::InLine { id, inline: empty_inline() }, ..st }
        } else if name == "Wrapper"@ {
            VastParseStateV { mode: VastModeV::Wrapper { id, wrapper: empty_wrapper() }, ..st }
        } else {
            st
        },
        VastModeV::InLine { id, inline } => if name == "AdSystem"@ {
            reading_state(st, TextTarget::AdSystem)
        } else if name == "AdTitle"@ {
            reading_state(st, TextTarget::AdTitle)
        } else if name == "Impression"@ {
            reading_state(st, TextTarget::Impression)
        } else if name == "Error"@ {
            reading_state(st, TextTarget::ErrorUrl)
        } else if name == "Creatives"@ {
            VastParseStateV {
                mode: VastModeV::Creatives { id, inline, list: Seq::empty() },
                ..st
            }
        } else {
            st
        },
        VastModeV::Creatives { id, inline, list } => if name == "Creative"@ {
            VastParseStateV {
                mode: VastModeV::Creative {
                    id,
                    inline,
                    list,
                    cid: attr_or_empty(attrs, "id"@),
                    linear: None,
                },
                ..st
            }
        } else {
            st
        },
        VastModeV::Creative { id, inline, list, cid, linear } => if name == "Linear"@ {
            VastParseStateV {
                mode: VastModeV::Linear { id, inline, list, cid, lin: empty_linear() },
                ..st
            }
        } else {
            st
        },
        VastModeV::Linear { id, inline, list, cid, lin } => if name == "Duration"@ {
            reading_state(st, TextTarget::Duration)
        } else if name == "MediaFiles"@ {
            VastParseStateV {
                mode: VastModeV::MediaFiles {
                    id,
                    inline,
                    list,
                    cid,
                    lin,
                    files: Seq::empty(),
                    pending: None,
                },
                ..st
            }
        } else if name == "TrackingEvents"@ {
            VastParseStateV {
                mode: VastModeV::LinearTracking {
                    id,
                    inline,
                    list,
                    cid,
                    lin,
                    events: Seq::empty(),
                    pending: None,
                },
                ..st
            }
        } else {
            st
        },
        VastModeV::MediaFiles { id, inline, list, cid, lin, files, pending } => if name
            == "MediaFile"@ {
            VastParseStateV {
                mode: VastModeV::MediaFiles {
                    id,
                    inline,
                    list,
                    cid,
                    lin,
                    files,
                    pending: Some(
                        MediaFileV {
                            url: Seq::empty(),
                            delivery: attr_or_empty(attrs, "delivery"@),
                            mime_type: attr_or_empty(attrs, "type"@),
                            width: attr_u32(attrs, "width"@),
                            height: attr_u32(attrs, "height"@),
                            bitrate: attr_opt_u32(attrs, "bitrate"@),
                            codec: attr_of(attrs, "codec"@),
                        },
                    ),
                },
                text: Seq::empty(),
                reading: Some(TextTarget::MediaFileUrl),
                ..st
            }
        } else {
            st
        },
        VastModeV::LinearTracking { id, inline, list, cid, lin, events, pending } => if name
            == "Tracking"@ {
            VastParseStateV {
                mode: VastModeV::LinearTracking {
                    id,
                    inline,
                    list,
                    cid,
                    lin,
                    events,
                    pending: Some(attr_or_empty(attrs, "event"@)),
                },
                text: Seq::empty(),
                reading: Some(TextTarget::TrackingUrl),
                ..st
            }
        } else {
            st
        },
        VastModeV::Wrapper { id, wrapper } => if name == "VASTAdTagURI"@ {
            reading_state(st, TextTarget::AdTagUri)
        } else if name == "Impression"@ {
            reading_state(st, TextTarget::Impression)
        } else if name == "TrackingEvents"@ {
            VastParseStateV {
                mode: VastModeV::WrapperTracking {
                    id,
                    wrapper,
                    events: Seq::empty(),
                    pending: None,
                },
                ..st
            }
        } else {
            st
        },
        VastModeV::WrapperTracking { id, wrapper, events, pending } => if name == "Tracking"@ {
            VastParseStateV {
                mode: VastModeV::WrapperTracking {
                    id,
                    wrapper,
                    events,
                    pending: Some(attr_or_empty(attrs, "event"@)),
                },
                text: Seq::empty(),
                reading: Some(TextTarget::TrackingUrl),
                ..st
            }
        } else {
            st
        },
    }
}

/// Begin text collection for a target.
pub open spec fn reading_state(st: VastParseStateV, t: TextTarget) -> VastParseStateV {
    VastParseStateV { text: Seq::empty(), reading: Some(t), ..st }
}

/// A closing tag applied outside text collection.
pub open spec fn end_spec(st: VastParseStateV, name: Seq<char>) -> VastParseStateV {
    match st.mode {
        VastModeV::Top => st,
        VastModeV::Ad { id } => if name == "Ad"@ {
            VastParseStateV { mode: VastModeV::Top, ..st }
        } else {
            st
        },
        VastModeV::InLine { id, inline } => if name == "InLine"@ {
            VastParseStateV {
                ads: st.ads.push(VastAdV { id, ad_type: VastAdTypeV::InLine(inline) }),
                mode: VastModeV::Top,
                ..st
            }
        } else {
            st
        },
        VastModeV::Creatives { id, inline, list } => if name == "Creatives"@ {
            VastParseStateV {
                mode: VastModeV::InLine {
                    id,
                    inline: InLineAdV { creatives: list, ..inline },
                },
                ..st
            }
        } else {
            st
        },
        VastModeV::Creative { id, inline, list, cid, linear } => if name == "Creative"@ {
            VastParseStateV {
                mode: VastModeV::Creatives {
                    id,
                    inline,
                    list: list.push(CreativeV { id: cid, linear }),
                },
                ..st
            }
        } else {
            st
        },
        VastModeV::Linear { id, inline, list, cid, lin } => if name == "Linear"@ {
            VastParseStateV {
                mode: VastModeV::Creative { id, inline, list, cid, linear: Some(lin) },
                ..st
            }
        } else {
            st
        },
        VastModeV::MediaFiles { id, inline, list, cid, lin, files, pending } => if name
            == "MediaFiles"@ {
            VastParseStateV {
                mode: VastModeV::Linear {
                    id,
                    inline,
                    list,
                    cid,
                    lin: LinearAdV { media_files: files, ..lin },
                },
                ..st
            }
        } else {
            st
        },
        VastModeV::LinearTracking { id, inline, list, cid, lin, events, pending } => if name
            == "TrackingEvents"@ {
            VastParseStateV {
                mode: VastModeV::Linear {
                    id,
                    inline,
                    list,
                    cid,
                    lin: LinearAdV { tracking_events: events, ..lin },
                },
                ..st
            }
        } else {
            st
        },
        VastModeV::Wrapper { id, wrapper } => if name == "Wrapper"@ {
            VastParseStateV {
                ads: st.ads.push(VastAdV { id, ad_type: VastAdTypeV::Wrapper(wrapper) }),
                mode: VastModeV::Top,
                ..st
            }
        } else {
            st
        },
        VastModeV::WrapperTracking { id, wrapper, events, pending } => if name
            == "TrackingEvents"@ {
            VastParseStateV {
                mode: VastModeV::Wrapper {
                    id,
                    wrapper: WrapperAdV { tracking_events: events, ..wrapper },
                },
                ..st
            }
        } else {
            st
        },
    }
}

/// One token applied to the reader state.
pub open spec fn vast_step_spec(st: VastParseStateV, tok: XmlTokenV) -> VastParseStateV {
    match st.reading {
        Some(t) => match tok {
            XmlTokenV::Text(s) => VastParseStateV { text: st.text + s, ..st },
            XmlTokenV::CData(s) => VastParseStateV { text: st.text + s, ..st },
            XmlTokenV::End { name } => if name == target_name(t) {
                commit_spec(st)
            } else {
                st
            },
            XmlTokenV::Eof => eof_spec(commit_spec(st)),
            XmlTokenV::Start { .. } => st,
        },
        None => match tok {
            XmlTokenV::Start { name, attrs } => start_spec(st, name, attrs),
            XmlTokenV::End { name } => end_spec(st, name),
            XmlTokenV::Text(_) => st,
            XmlTokenV::CData(_) => st,
            XmlTokenV::Eof => eof_spec(st),
        },
    }
}

/// The reader state after the tokens from `k` on.
pub open spec fn vast_fold(st: VastParseStateV, toks: Seq<XmlTokenV>, k: int) -> VastParseStateV
    decreases toks.len() - k,
        when k >= 0
{
    if !(0 <= k < toks.len()) {
        st
    } else {
        vast_fold(vast_step_spec(st, toks[k]), toks, k + 1)
    }
}

/// The VAST response a token stream denotes: the fold from the empty
/// state, closed by end of input.  An empty document (no `Ad` element)
/// yields an empty ad list.
pub open spec fn vast_of(toks: Seq<XmlTokenV>) -> VastResponseV {
    let end = vast_step_spec(vast_fold(init_state(), toks, 0), XmlTokenV::Eof);
    VastResponseV { version: end.version, ads: end.ads }
}

/// First value of a named attribute, cloned.
fn find_attr(attrs: &Vec<(String, String)>, name: &str) -> (r: Option<String>)
    ensures
        (match r {
            Some(v) => Some(v@),
            None => None,
        }) == attr_of(attrs@.map_values(|a: (String, String)| (a.0@, a.1@)), name@),
{
    let ghost av = attrs@.map_values(|a: (String, String)| (a.0@, a.1@));
    let n = attrs.len();
    let mut i: usize = 0;
    proof {
        assert(av.subrange(0, n as int) =~= av);
    }
    while i < n
        invariant
            n == av.len(),
            av == attrs@.map_values(|a: (String, String)| (a.0@, a.1@)),
            0 <= i <= n,
            attr_of(av, name@) == attr_of(av.subrange(i as int, n as int), name@),
        decreases n - i,
    {
        proof {
            assert(av[i as int] == (attrs@[i as int].0@, attrs@[i as int].1@));
            assert(av.subrange(i as int, n as int).first() == av[i as int]);
            assert(av.subrange(i as int, n as int).drop_first() =~= av.subrange(i + 1, n as int));
        }
        if str_eq(attrs[i].0.as_str(), name) {
            return Some(attrs[i].1.clone());
        }
        i += 1;
    }
    proof {
        assert(av.subrange(n as int, n as int) =~= Seq::<(Seq<char>, Seq<char>)>::empty());
    }
    None
}

/// A named attribute, defaulting to the empty string.
fn find_attr_or_empty(attrs: &Vec<(String, String)>, name: &str) -> (r: String)
    ensures
        r@ == attr_or_empty(attrs@.map_values(|a: (String, String)| (a.0@, a.1@)), name@),
{
    match find_attr(attrs, name) {
        Some(v) => v,
        None => {
            let r = String::new();
            proof {
                assert(r@ =~= Seq::<char>::empty());
            }
            r
        },
    }
}

/// A numeric attribute as `u32`, zero when absent or unreadable.
fn find_attr_u32(attrs: &Vec<(String, String)>, name: &str) -> (r: u32)
    ensures
        r == attr_u32(attrs@.map_values(|a: (String, String)| (a.0@, a.1@)), name@),
{
    match find_attr(attrs, name) {
        Some(v) => match parse_u64(v.as_str()) {
            Some(n) => {
                if n <= u32::MAX as u64 {
                    n as u32
                } else {
                    0
                }
            },
            None => 0,
        },
        None => 0,
    }
}

/// A numeric attribute as `Option<u32>`, absent when unreadable.
fn find_attr_opt_u32(attrs: &Vec<(String, String)>, name: &str) -> (r: Option<u32>)
    ensures
        r == attr_opt_u32(attrs@.map_values(|a: (String, String)| (a.0@, a.1@)), name@),
{
    match find_attr(attrs, name) {
        Some(v) => match parse_u64(v.as_str()) {
            Some(n) => {
                if n <= u32::MAX as u64 {
                    Some(n as u32)
                } else {
                    None
                }
            },
            None => None,
        },
        None => None,
    }
}

/// Commit the collected text into the slot the reading target names.
#[verifier::rlimit(100)]
#[verifier::spinoff_prover]
fn commit_text(st: VastParseState) -> (r: VastParseState)
    ensures
        r@ == commit_spec(st@),
{
    let VastParseState { version, ads, mode, text, reading } = st;
    let target = match reading {
        Some(t) => t,
        None => {
            return VastParseState { version, ads, mode, text, reading };
        },
    };
    let trimmed: String = trim(text.as_str()).to_owned();
    let empty_text = String::new();
    proof {
        assert(empty_text@ =~= Seq::<char>::empty());
    }
    let new_mode: VastMode = match (target, mode) {
        (TextTarget::AdSystem, VastMode::InLine { id, inline }) => VastMode::InLine {
            id,
            inline: InLineAd { ad_system: trimmed, ..inline },
        },
        (TextTarget::AdTitle, VastMode::InLine { id, inline }) => VastMode::InLine {
            id,
            inline: InLineAd { ad_title: trimmed, ..inline },
        },
        (TextTarget::Impression, VastMode::InLine { id, mut inline }) => {
            if trimmed.unicode_len() > 0 {
                inline.impression_urls.push(trimmed);
            }
            VastMode::InLine { id, inline }
        },
        (TextTarget::Impression, VastMode::Wrapper { id, mut wrapper }) => {
            if trimmed.unicode_len() > 0 {
                wrapper.impression_urls.push(trimmed);
            }
            VastMode::Wrapper { id, wrapper }
        },
        (TextTarget::ErrorUrl, VastMode::InLine { id, inline }) => VastMode::InLine {
            id,
            inline: InLineAd { error_url: Some(trimmed), ..inline },
        },
        (TextTarget::AdTagUri, VastMode::Wrapper { id, wrapper }) => VastMode::Wrapper {
            id,
            wrapper: WrapperAd { ad_tag_uri: trimmed, ..wrapper },
        },
        (TextTarget::Duration, VastMode::Linear { id, inline, list, cid, lin }) => VastMode::Linear {
            id,
            inline,
            list,
            cid,
            lin: LinearAd { duration_ms: parse_duration(text.as_str()), ..lin },
        },
        (
            TextTarget::MediaFileUrl,
            VastMode::MediaFiles { id, inline, list, cid, lin, mut files, pending },
        ) => {
            match pending {
                Some(f) => {
                    files.push(MediaFile { url: trimmed, ..f });
                },
                None => {},
            }
            VastMode::MediaFiles { id, inline, list, cid, lin, files, pending: None }
        },
        (
            TextTarget::TrackingUrl,
            VastMode::LinearTracking { id, inline, list, cid, lin, mut events, pending },
        ) => {
            match pending {
                Some(ev) => {
                    events.push(TrackingEvent { event: ev, url: trimmed });
                },
                None => {},
            }
            VastMode::LinearTracking { id, inline, list, cid, lin, events, pending: None }
        },
        (TextTarget::TrackingUrl, VastMode::WrapperTracking { id, wrapper, mut events, pending }) => {
            match pending {
                Some(ev) => {
                    events.push(TrackingEvent { event: ev, url: trimmed });
                },
                None => {},
            }
            VastMode::WrapperTracking { id, wrapper, events, pending: None }
        },
        (_, other) => other,
    };
    let r = VastParseState { version, ads, mode: new_mode, text: empty_text, reading: None };
    proof {
        assert(r@ =~~= commit_spec(st@));
    }
    r
}

/// Close every open level at end of input.
#[verifier::rlimit(100)]
#[verifier::spinoff_prover]
fn eof_close(st: VastParseState) -> (r: VastParseState)
    ensures
        r@ == eof_spec(st@),
{
    let VastParseState { version, mut ads, mode, text, reading } = st;
    match mode {
        VastMode::Top => {},
        VastMode::Ad { .. } => {},
        VastMode::InLine { id, inline } => {
            ads.push(VastAd { id, ad_type: VastAdType::InLine(inline) });
        },
        VastMode::Creatives { id, inline, list } => {
            ads.push(
                VastAd {
                    id,
                    ad_type: VastAdType::InLine(InLineAd { creatives: list, ..inline }),
                },
            );
        },
        VastMode::Creative { id, inline, mut list, cid, linear } => {
            list.push(Creative { id: cid, linear });
            ads.push(
                VastAd {
                    id,
                    ad_type: VastAdType::InLine(InLineAd { creatives: list, ..inline }),
                },
            );
        },
        VastMode::Linear { id, inline, mut list, cid, lin } => {
            list.push(Creative { id: cid, linear: Some(lin) });
            ads.push(
                VastAd {
                    id,
                    ad_type: VastAdType::InLine(InLineAd { creatives: list, ..inline }),
                },
            );
        },
        VastMode::MediaFiles { id, inline, mut list, cid, lin, files, pending: _ } => {
            list.push(
                Creative { id: cid, linear: Some(LinearAd { media_files: files, ..lin }) },
            );
            ads.push(
                VastAd {
                    id,
                    ad_type: VastAdType::InLine(InLineAd { creatives: list, ..inline }),
                },
            );
        },
        VastMode::LinearTracking { id, inline, mut list, cid, lin, events, pending: _ } => {
            list.push(
                Creative { id: cid, linear: Some(LinearAd { tracking_events: events, ..lin }) },
            );
            ads.push(
                VastAd {
                    id,
                    ad_type: VastAdType::InLine(InLineAd { creatives: list, ..inline }),
                },
            );
        },
        VastMode::Wrapper { id, wrapper } => {
            ads.push(VastAd { id, ad_type: VastAdType::Wrapper(wrapper) });
        },
        VastMode::WrapperTracking { id, wrapper, events, pending: _ } => {
            ads.push(
                VastAd {
                    id,
                    ad_type: VastAdType::Wrapper(
                        WrapperAd { tracking_events: events, ..wrapper },
                    ),
                },
            );
        },
    }
    let empty_text = String::new();
    proof {
        assert(empty_text@ =~= Seq::<char>::empty());
    }
    let r = VastParseState {
        version,
        ads,
        mode: VastMode::Top,
        text: empty_text,
        reading: None,
    };
    proof {
        assert(r@ =~~= eof_spec(st@));
    }
    r
}

/// Apply an opening tag outside text collection.
#[verifier::rlimit(100)]
#[verifier::spinoff_prover]
fn start_step(st: VastParseState, name: String, attrs: Vec<(String, String)>) -> (r:
    VastParseState)
    requires
        st@.reading is None,
    ensures
        r@ == start_spec(
            st@,
            name@,
            attrs@.map_values(|a: (String, String)| (a.0@, a.1@)),
        ),
{
    let VastParseState { version, ads, mode, text, reading } = st;
    let r = match mode {
        VastMode::Top => {
            if str_eq(name.as_str(), "VAST") {
                VastParseState {
                    version: find_attr_or_empty(&attrs, "version"),
                    ads,
                    mode: VastMode::Top,
                    text,
                    reading,
                }
            } else if str_eq(name.as_str(), "Ad") {
                VastParseState {
                    version,
                    ads,
                    mode: VastMode::Ad { id: find_attr_or_empty(&attrs, "id") },
                    text,
                    reading,
                }
            } else {
                VastParseState { version, ads, mode: VastMode::Top, text, reading }
            }
        },
        VastMode::Ad { id } => {
            if str_eq(name.as_str(), "InLine") {
                let inline = InLineAd {
                    ad_system: String::new(),
                    ad_title: String::new(),
                    creatives: Vec::new(),
                    impression_urls: Vec::new(),
                    error_url: None,
                };
                proof {
                    assert(inline@ =~~= empty_inline());
                }
                VastParseState {
                    version,
                    ads,
                    mode: VastMode::InLine { id, inline },
                    text,
                    reading,
                }
            } else if str_eq(name.as_str(), "Wrapper") {
                let wrapper = WrapperAd {
                    ad_tag_uri: String::new(),
                    impression_urls: Vec::new(),
                    tracking_events: Vec::new(),
                };
                proof {
                    assert(wrapper@ =~~= empty_wrapper());
                }
                VastParseState {
                    version,
                    ads,
                    mode: VastMode::Wrapper { id, wrapper },
                    text,
                    reading,
                }
            } else {
                VastParseState { version, ads, mode: VastMode::Ad { id }, text, reading }
            }
        },
        VastMode::InLine { id, inline } => {
            if str_eq(name.as_str(), "AdSystem") {
                begin_reading(version, ads, VastMode::InLine { id, inline }, TextTarget::AdSystem)
            } else if str_eq(name.as_str(), "AdTitle") {
                begin_reading(version, ads, VastMode::InLine { id, inline }, TextTarget::AdTitle)
            } else if str_eq(name.as_str(), "Impression") {
                begin_reading(
                    version,
                    ads,
                    VastMode::InLine { id, inline },
                    TextTarget::Impression,
                )
            } else if str_eq(name.as_str(), "Error") {
                begin_reading(version, ads, VastMode::InLine { id, inline }, TextTarget::ErrorUrl)
            } else if str_eq(name.as_str(), "Creatives") {
                VastParseState {
                    version,
                    ads,
                    mode: VastMode::Creatives { id, inline, list: Vec::new() },
                    text,
                    reading,
                }
            } else {
                VastParseState { version, ads, mode: VastMode::InLine { id, inline }, text, reading }
            }
        },
        VastMode::Creatives { id, inline, list } => {
            if str_eq(name.as_str(), "Creative") {
                VastParseState {
                    version,
                    ads,
                    mode: VastMode::Creative {
                        id,
                        inline,
                        list,
                        cid: find_attr_or_empty(&attrs, "id"),
                        linear: None,
                    },
                    text,
                    reading,
                }
            } else {
                VastParseState {
                    version,
                    ads,
                    mode: VastMode::Creatives { id, inline, list },
                    text,
                    reading,
                }
            }
        },
        VastMode::Creative { id, inline, list, cid, linear } => {
            if str_eq(name.as_str(), "Linear") {
                let lin = LinearAd {
                    duration_ms: 0,
                    media_files: Vec::new(),
                    tracking_events: Vec::new(),
                };
                proof {
                    assert(lin@ =~~= empty_linear());
                }
                VastParseState {
                    version,
                    ads,
                    mode: VastMode::Linear { id, inline, list, cid, lin },
                    text,
                    reading,
                }
            } else {
                VastParseState {
                    version,
                    ads,
                    mode: VastMode::Creative { id, inline, list, cid, linear },
                    text,
                    reading,
                }
            }
        },
        VastMode::Linear { id, inline, list, cid, lin } => {
            if str_eq(name.as_str(), "Duration") {
                begin_reading(
                    version,
                    ads,
                    VastMode::Linear { id, inline, list, cid, lin },
                    TextTarget::Duration,
                )
            } else if str_eq(name.as_str(), "MediaFiles") {
                VastParseState {
                    version,
                    ads,
                    mode: VastMode::MediaFiles {
                        id,
                        inline,
                        list,
                        cid,
                        lin,
                        files: Vec::new(),
                        pending: None,
                    },
                    text,
                    reading,
                }
            } else if str_eq(name.as_str(), "TrackingEvents") {
                VastParseState {
                    version,
                    ads,
                    mode: VastMode::LinearTracking {
                        id,
                        inline,
                        list,
                        cid,
                        lin,
                        events: Vec::new(),
                        pending: None,
                    },
                    text,
                    reading,
                }
            } else {
                VastParseState {
                    version,
                    ads,
                    mode: VastMode::Linear { id, inline, list, cid, lin },
                    text,
                    reading,
                }
            }
        },
        VastMode::MediaFiles { id, inline, list, cid, lin, files, pending } => {
            if str_eq(name.as_str(), "MediaFile") {
                let empty_text = String::new();
                proof {
                    assert(empty_text@ =~= Seq::<char>::empty());
                }
                let f = MediaFile {
                    url: String::new(),
                    delivery: find_attr_or_empty(&attrs, "delivery"),
                    mime_type: find_attr_or_empty(&attrs, "type"),
                    width: find_attr_u32(&attrs, "width"),
                    height: find_attr_u32(&attrs, "height"),
                    bitrate: find_attr_opt_u32(&attrs, "bitrate"),
                    codec: find_attr(&attrs, "codec"),
                };
                proof {
                    assert(f@.url =~= Seq::<char>::empty());
                }
                VastParseState {
                    version,
                    ads,
                    mode: VastMode::MediaFiles {
                        id,
                        inline,
                        list,
                        cid,
                        lin,
                        files,
                        pending: Some(f),
                    },
                    text: empty_text,
                    reading: Some(TextTarget::MediaFileUrl),
                }
            } else {
                VastParseState {
                    version,
                    ads,
                    mode: VastMode::MediaFiles { id, inline, list, cid, lin, files, pending },
                    text,
                    reading,
                }
            }
        },
        VastMode::LinearTracking { id, inline, list, cid, lin, events, pending } => {
            if str_eq(name.as_str(), "Tracking") {
                let empty_text = String::new();
                proof {
                    assert(empty_text@ =~= Seq::<char>::empty());
                }
                VastParseState {
                    version,
                    ads,
                    mode: VastMode::LinearTracking {
                        id,
                        inline,
                        list,
                        cid,
                        lin,
                        events,
                        pending: Some(find_attr_or_empty(&attrs, "event")),
                    },
                    text: empty_text,
                    reading: Some(TextTarget::TrackingUrl),
                }
            } else {
                VastParseState {
                    version,
                    ads,
                    mode: VastMode::LinearTracking { id, inline, list, cid, lin, events, pending },
                    text,
                    reading,
                }
            }
        },
        VastMode::Wrapper { id, wrapper } => {
            if str_eq(name.as_str(), "VASTAdTagURI") {
                begin_reading(version, ads, VastMode::Wrapper { id, wrapper }, TextTarget::AdTagUri)
            } else if str_eq(name.as_str(), "Impression") {
                begin_reading(
                    version,
                    ads,
                    VastMode::Wrapper { id, wrapper },
                    TextTarget::Impression,
                )
            } else if str_eq(name.as_str(), "TrackingEvents") {
                VastParseState {
                    version,
                    ads,
                    mode: VastMode::WrapperTracking {
                        id,
                        wrapper,
                        events: Vec::new(),
                        pending: None,
                    },
                    text,
                    reading,
                }
            } else {
                VastParseState { version, ads, mode: VastMode::Wrapper { id, wrapper }, text, reading }
            }
        },
        VastMode::WrapperTracking { id, wrapper, events, pending } => {
            if str_eq(name.as_str(), "Tracking") {
                let empty_text = String::new();
                proof {
                    assert(empty_text@ =~= Seq::<char>::empty());
                }
                VastParseState {
                    version,
                    ads,
                    mode: VastMode::WrapperTracking {
                        id,
                        wrapper,
                        events,
                        pending: Some(find_attr_or_empty(&attrs, "event")),
                    },
                    text: empty_text,
                    reading: Some(TextTarget::TrackingUrl),
                }
            } else {
                VastParseState {
                    version,
                    ads,
                    mode: VastMode::WrapperTracking { id, wrapper, events, pending },
                    text,
                    reading,
                }
            }
        },
    };
    proof {
        assert(r@ =~~= start_spec(
            st@,
            name@,
            attrs@.map_values(|a: (String, String)| (a.0@, a.1@)),
        ));
    }
    r
}

/// Begin text collection for a target.
fn begin_reading(version: String, ads: Vec<VastAd>, mode: VastMode, t: TextTarget) -> (r:
    VastParseState)
    ensures
        r@.version == version@,
        r@.ads == ads@.map_values(|a: VastAd| a@),
        r@.mode == mode@,
        r@.text == Seq::<char>::empty(),
        r@.reading == Some(t),
{
    let empty_text = String::new();
    proof {
        assert(empty_text@ =~= Seq::<char>::empty());
    }
    VastParseState { version, ads, mode, text: empty_text, reading: Some(t) }
}

/// Apply a closing tag outside text collection.
#[verifier::rlimit(100)]
#[verifier::spinoff_prover]
fn end_step(st: VastParseState, name: String) -> (r: VastParseState)
    requires
        st@.reading is None,
    ensures
        r@ == end_spec(st@, name@),
{
    let VastParseState { version, mut ads, mode, text, reading } = st;
    let new_mode: VastMode = match mode {
        VastMode::Top => VastMode::Top,
        VastMode::Ad { id } => {
            if str_eq(name.as_str(), "Ad") {
                VastMode::Top
            } else {
                VastMode::Ad { id }
            }
        },
        VastMode::InLine { id, inline } => {
            if str_eq(name.as_str(), "InLine") {
                ads.push(VastAd { id, ad_type: VastAdType::InLine(inline) });
                VastMode::Top
            } else {
                VastMode::InLine { id, inline }
            }
        },
        VastMode::Creatives { id, inline, list } => {
            if str_eq(name.as_str(), "Creatives") {
                VastMode::InLine { id, inline: InLineAd { creatives: list, ..inline } }
            } else {
                VastMode::Creatives { id, inline, list }
            }
        },
        VastMode::Creative { id, inline, mut list, cid, linear } => {
            if str_eq(name.as_str(), "Creative") {
                list.push(Creative { id: cid, linear });
                VastMode::Creatives { id, inline, list }
            } else {
                VastMode::Creative { id, inline, list, cid, linear }
            }
        },
        VastMode::Linear { id, inline, list, cid, lin } => {
            if str_eq(name.as_str(), "Linear") {
                VastMode::Creative { id, inline, list, cid, linear: Some(lin) }
            } else {
                VastMode::Linear { id, inline, list, cid, lin }
            }
        },
        VastMode::MediaFiles { id, inline, list, cid, lin, files, pending } => {
            if str_eq(name.as_str(), "MediaFiles") {
                VastMode::Linear { id, inline, list, cid, lin: LinearAd { media_files: files, ..lin } }
            } else {
                VastMode::MediaFiles { id, inline, list, cid, lin, files, pending }
            }
        },
        VastMode::LinearTracking { id, inline, list, cid, lin, events, pending } => {
            if str_eq(name.as_str(), "TrackingEvents") {
                VastMode::Linear {
                    id,
                    inline,
                    list,
                    cid,
                    lin: LinearAd { tracking_events: events, ..lin },
                }
            } else {
                VastMode::LinearTracking { id, inline, list, cid, lin, events, pending }
            }
        },
        VastMode::Wrapper { id, wrapper } => {
            if str_eq(name.as_str(), "Wrapper") {
                ads.push(VastAd { id, ad_type: VastAdType::Wrapper(wrapper) });
                VastMode::Top
            } else {
                VastMode::Wrapper { id, wrapper }
            }
        },
        VastMode::WrapperTracking { id, wrapper, events, pending } => {
            if str_eq(name.as_str(), "TrackingEvents") {
                VastMode::Wrapper {
                    id,
                    wrapper: WrapperAd { tracking_events: events, ..wrapper },
                }
            } else {
                VastMode::WrapperTracking { id, wrapper, events, pending }
            }
        },
    };
    let r = VastParseState { version, ads, mode: new_mode, text, reading };
    proof {
        assert(r@ =~~= end_spec(st@, name@));
    }
    r
}

/// Apply one XML token to the reader state.
pub fn vast_parse_step(st: VastParseState, tok: XmlToken) -> (r: VastParseState)
    ensures
        r@ == vast_step_spec(st@, tok@),
{
    match st.reading {
        Some(t) => {
            match tok {
                XmlToken::Text(s) => {
                    let VastParseState { version, ads, mode, mut text, reading } = st;
                    text.append(s.as_str());
                    VastParseState { version, ads, mode, text, reading }
                },
                XmlToken::CData(s) => {
                    let VastParseState { version, ads, mode, mut text, reading } = st;
                    text.append(s.as_str());
                    VastParseState { version, ads, mode, text, reading }
                },
                XmlToken::End { name } => {
                    let closes = match t {
                        TextTarget::AdSystem => str_eq(name.as_str(), "AdSystem"),
                        TextTarget::AdTitle => str_eq(name.as_str(), "AdTitle"),
                        TextTarget::Impression => str_eq(name.as_str(), "Impression"),
                        TextTarget::ErrorUrl => str_eq(name.as_str(), "Error"),
                        TextTarget::AdTagUri => str_eq(name.as_str(), "VASTAdTagURI"),
                        TextTarget::Duration => str_eq(name.as_str(), "Duration"),
                        TextTarget::MediaFileUrl => str_eq(name.as_str(), "MediaFile"),
                        TextTarget::TrackingUrl => str_eq(name.as_str(), "Tracking"),
                    };
                    if closes {
                        commit_text(st)
                    } else {
                        st
                    }
                },
                XmlToken::Eof => eof_close(commit_text(st)),
                XmlToken::Start { .. } => st,
            }
        },
        None => {
            match tok {
                XmlToken::Start { name, attrs } => start_step(st, name, attrs),
                XmlToken::End { name } => end_step(st, name),
                XmlToken::Text(_) => st,
                XmlToken::CData(_) => st,
                XmlToken::Eof => eof_close(st),
            }
        },
    }
}

/// Read a whole token stream as a VAST response.  An empty document —
/// no `Ad` element at all — yields an empty ad list.
pub fn parse_vast_tokens(tokens: Vec<XmlToken>) -> (r: VastResponse)
    ensures
        r@ == vast_of(tokens@.map_values(|t: XmlToken| t@)),
{
    let ghost toks = tokens@.map_values(|t: XmlToken| t@);
    let mut st = VastParseState::start();
    let n = tokens.len();
    let mut rest = tokens;
    let mut k: usize = 0;
    proof {
        assert(rest@.map_values(|t: XmlToken| t@) =~= toks.subrange(0, n as int));
    }
    while k < n
        invariant
            n == toks.len(),
            0 <= k <= n,
            rest@.map_values(|t: XmlToken| t@) == toks.subrange(k as int, n as int),
            vast_fold(init_state(), toks, 0) == vast_fold(st@, toks, k as int),
        decreases n - k,
    {
        proof {
            assert(rest@.map_values(|t: XmlToken| t@).len() == rest@.len());
            assert(rest@.len() == n - k);
            assert(toks.subrange(k as int, n as int)[0] == toks[k as int]);
            assert(rest@.map_values(|t: XmlToken| t@)[0] == rest@[0]@);
        }
        let ghost rest0 = rest@;
        let tok = rest.remove(0);
        proof {
            assert(rest@.map_values(|t: XmlToken| t@) =~= toks.subrange(k + 1, n as int)) by {
                assert(rest@ =~= rest0.drop_first());
                assert forall|j: int| #![trigger rest@[j]] 0 <= j < rest@.len()
                    implies rest@.map_values(|t: XmlToken| t@)[j] == toks.subrange(
                    k + 1,
                    n as int,
                )[j] by {
                    assert(rest@[j] == rest0[j + 1]);
                    assert(rest0.map_values(|t: XmlToken| t@)[j + 1] == toks.subrange(
                        k as int,
                        n as int,
                    )[j + 1]);
                }
            }
        }
        st = vast_parse_step(st, tok);
        k += 1;
    }
    let closed = vast_parse_step(st, XmlToken::Eof);
    let VastParseState { version, ads, mode: _, text: _, reading: _ } = closed;
    let r = VastResponse { version, ads };
    proof {
        assert(r@ =~~= vast_of(toks));
    }
    r
}

} // verus!
