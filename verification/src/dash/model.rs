//! The in-memory MPD model.  Event times are kept in their native
//! timescale ticks; period durations are carried as the attribute text.

use vstd::prelude::*;

verus! {

/// One `Event` of an `EventStream`, in timescale ticks.
#[derive(Clone, Debug, PartialEq)]
pub struct DashEvent {
    pub id: Option<String>,
    pub presentation_time: Option<u64>,
    pub duration: Option<u64>,
}

/// Mathematical view of a `DashEvent`.
#[verifier::ext_equal]
pub ghost struct DashEventV {
    pub id: Option<Seq<char>>,
    pub presentation_time: Option<u64>,
    pub duration: Option<u64>,
}

impl View for DashEvent {
    type V = DashEventV;

    open spec fn view(&self) -> DashEventV {
        DashEventV {
            id: match self.id {
                Some(s) => Some(s@),
                None => None,
            },
            presentation_time: self.presentation_time,
            duration: self.duration,
        }
    }
}

/// An `EventStream` of a Period.
#[derive(Clone, Debug, PartialEq)]
pub struct EventStream {
    pub scheme_id_uri: Option<String>,
    pub timescale: Option<u64>,
    pub events: Vec<DashEvent>,
}

/// Mathematical view of an `EventStream`.
#[verifier::ext_equal]
pub ghost struct EventStreamV {
    pub scheme_id_uri: Option<Seq<char>>,
    pub timescale: Option<u64>,
    pub events: Seq<DashEventV>,
}

impl View for EventStream {
    type V = EventStreamV;

    open spec fn view(&self) -> EventStreamV {
        EventStreamV {
            scheme_id_uri: match self.scheme_id_uri {
                Some(s) => Some(s@),
                None => None,
            },
            timescale: self.timescale,
            events: self.events@.map_values(|e: DashEvent| e@),
        }
    }
}

/// A `SegmentTemplate`.
#[derive(Clone, Debug, PartialEq)]
pub struct SegmentTemplate {
    pub media: Option<String>,
    pub initialization: Option<String>,
    pub timescale: Option<u64>,
    pub duration: Option<u64>,
    pub start_number: Option<u64>,
}

/// Mathematical view of a `SegmentTemplate`.
#[verifier::ext_equal]
pub ghost struct SegmentTemplateV {
    pub media: Option<Seq<char>>,
    pub initialization: Option<Seq<char>>,
    pub timescale: Option<u64>,
    pub duration: Option<u64>,
    pub start_number: Option<u64>,
}

impl View for SegmentTemplate {
    type V = SegmentTemplateV;

    open spec fn view(&self) -> SegmentTemplateV {
        SegmentTemplateV {
            media: match self.media {
                Some(s) => Some(s@),
                None => None,
            },
            initialization: match self.initialization {
                Some(s) => Some(s@),
                None => None,
            },
            timescale: self.timescale,
            duration: self.duration,
            start_number: self.start_number,
        }
    }
}

/// One `SegmentURL` of a `SegmentList`.
#[derive(Clone, Debug, PartialEq)]
pub struct SegmentUrl {
    pub media: Option<String>,
}

/// Mathematical view of a `SegmentUrl`.
#[verifier::ext_equal]
pub ghost struct SegmentUrlV {
    pub media: Option<Seq<char>>,
}

impl View for SegmentUrl {
    type V = SegmentUrlV;

    open spec fn view(&self) -> SegmentUrlV {
        SegmentUrlV {
            media: match self.media {
                Some(s) => Some(s@),
                None => None,
            },
        }
    }
}

/// A `SegmentList`.
#[derive(Clone, Debug, PartialEq)]
pub struct SegmentList {
    pub segment_urls: Vec<SegmentUrl>,
}

/// Mathematical view of a `SegmentList`.
#[verifier::ext_equal]
pub ghost struct SegmentListV {
    pub segment_urls: Seq<SegmentUrlV>,
}

impl View for SegmentList {
    type V = SegmentListV;

    open spec fn view(&self) -> SegmentListV {
        SegmentListV { segment_urls: self.segment_urls@.map_values(|u: SegmentUrl| u@) }
    }
}

/// A `Representation`.
#[derive(Clone, Debug, PartialEq)]
pub struct Representation {
    pub id: Option<String>,
    pub bandwidth: Option<u64>,
    pub codecs: Option<String>,
    pub base_urls: Vec<String>,
    pub segment_template: Option<SegmentTemplate>,
    pub segment_list: Option<SegmentList>,
}

/// Mathematical view of a `Representation`.
#[verifier::ext_equal]
pub ghost struct RepresentationV {
    pub id: Option<Seq<char>>,
    pub bandwidth: Option<u64>,
    pub codecs: Option<Seq<char>>,
    pub base_urls: Seq<Seq<char>>,
    pub segment_template: Option<SegmentTemplateV>,
    pub segment_list: Option<SegmentListV>,
}

impl View for Representation {
    type V = RepresentationV;

    open spec fn view(&self) -> RepresentationV {
        RepresentationV {
            id: match self.id {
                Some(s) => Some(s@),
                None => None,
            },
            bandwidth: self.bandwidth,
            codecs: match self.codecs {
                Some(s) => Some(s@),
                None => None,
            },
            base_urls: self.base_urls@.map_values(|u: String| u@),
            segment_template: match self.segment_template {
                Some(t) => Some(t@),
                None => None,
            },
            segment_list: match self.segment_list {
                Some(l) => Some(l@),
                None => None,
            },
        }
    }
}

/// An `AdaptationSet`.
#[derive(Clone, Debug, PartialEq)]
pub struct AdaptationSet {
    pub id: Option<String>,
    pub content_type: Option<String>,
    pub mime_type: Option<String>,
    pub lang: Option<String>,
    pub base_urls: Vec<String>,
    pub segment_template: Option<SegmentTemplate>,
    pub representations: Vec<Representation>,
}

/// Mathematical view of an `AdaptationSet`.
#[verifier::ext_equal]
pub ghost struct AdaptationSetV {
    pub id: Option<Seq<char>>,
    pub content_type: Option<Seq<char>>,
    pub mime_type: Option<Seq<char>>,
    pub lang: Option<Seq<char>>,
    pub base_urls: Seq<Seq<char>>,
    pub segment_template: Option<SegmentTemplateV>,
    pub representations: Seq<RepresentationV>,
}

impl View for AdaptationSet {
    type V = AdaptationSetV;

    open spec fn view(&self) -> AdaptationSetV {
        AdaptationSetV {
            id: match self.id {
                Some(s) => Some(s@),
                None => None,
            },
            content_type: match self.content_type {
                Some(s) => Some(s@),
                None => None,
            },
            mime_type: match self.mime_type {
                Some(s) => Some(s@),
                None => None,
            },
            lang: match self.lang {
                Some(s) => Some(s@),
                None => None,
            },
            base_urls: self.base_urls@.map_values(|u: String| u@),
            segment_template: match self.segment_template {
                Some(t) => Some(t@),
                None => None,
            },
            representations: self.representations@.map_values(|r: Representation| r@),
        }
    }
}

/// A `Period`.
#[derive(Clone, Debug, PartialEq)]
pub struct Period {
    pub id: Option<String>,
    /// The `duration` attribute text, as written (for instance `PT60S`).
    pub duration: Option<String>,
    pub base_urls: Vec<String>,
    pub adaptations: Vec<AdaptationSet>,
    pub event_streams: Vec<EventStream>,
}

/// Mathematical view of a `Period`.
#[verifier::ext_equal]
pub ghost struct PeriodV {
    pub id: Option<Seq<char>>,
    pub duration: Option<Seq<char>>,
    pub base_urls: Seq<Seq<char>>,
    pub adaptations: Seq<AdaptationSetV>,
    pub event_streams: Seq<EventStreamV>,
}

impl View for Period {
    type V = PeriodV;

    open spec fn view(&self) -> PeriodV {
        PeriodV {
            id: match self.id {
                Some(s) => Some(s@),
                None => None,
            },
            duration: match self.duration {
                Some(s) => Some(s@),
                None => None,
            },
            base_urls: self.base_urls@.map_values(|u: String| u@),
            adaptations: self.adaptations@.map_values(|a: AdaptationSet| a@),
            event_streams: self.event_streams@.map_values(|e: EventStream| e@),
        }
    }
}

/// A Media Presentation Description.
#[derive(Clone, Debug, PartialEq)]
pub struct Mpd {
    pub mpd_type: Option<String>,
    pub media_presentation_duration: Option<String>,
    pub min_buffer_time: Option<String>,
    pub profiles: Option<String>,
    pub base_urls: Vec<String>,
    pub periods: Vec<Period>,
}

/// Mathematical view of an `Mpd`.
#[verifier::ext_equal]
pub ghost struct MpdV {
    pub mpd_type: Option<Seq<char>>,
    pub media_presentation_duration: Option<Seq<char>>,
    pub min_buffer_time: Option<Seq<char>>,
    pub profiles: Option<Seq<char>>,
    pub base_urls: Seq<Seq<char>>,
    pub periods: Seq<PeriodV>,
}

impl View for Mpd {
    type V = MpdV;

    open spec fn view(&self) -> MpdV {
        MpdV {
            mpd_type: match self.mpd_type {
                Some(s) => Some(s@),
                None => None,
            },
            media_presentation_duration: match self.media_presentation_duration {
                Some(s) => Some(s@),
                None => None,
            },
            min_buffer_time: match self.min_buffer_time {
                Some(s) => Some(s@),
                None => None,
            },
            profiles: match self.profiles {
                Some(s) => Some(s@),
                None => None,
            },
            base_urls: self.base_urls@.map_values(|u: String| u@),
            periods: self.periods@.map_values(|p: Period| p@),
        }
    }
}

impl Default for Mpd {
    /// An empty MPD.
    fn default() -> (r: Mpd)
        ensures
            r@.mpd_type is None,
            r@.media_presentation_duration is None,
            r@.min_buffer_time is None,
            r@.profiles is None,
            r@.base_urls.len() == 0,
            r@.periods.len() == 0,
    {
        let r = Mpd {
            mpd_type: None,
            media_presentation_duration: None,
            min_buffer_time: None,
            profiles: None,
            base_urls: Vec::new(),
            periods: Vec::new(),
        };
        proof {
            assert(r@.base_urls =~= Seq::<Seq<char>>::empty());
            assert(r@.periods =~= Seq::<PeriodV>::empty());
        }
        r
    }
}

impl Default for Period {
    /// An empty period.
    fn default() -> (r: Period)
        ensures
            r@.id is None,
            r@.duration is None,
            r@.base_urls.len() == 0,
            r@.adaptations.len() == 0,
            r@.event_streams.len() == 0,
    {
        let r = Period {
            id: None,
            duration: None,
            base_urls: Vec::new(),
            adaptations: Vec::new(),
            event_streams: Vec::new(),
        };
        proof {
            assert(r@.base_urls =~= Seq::<Seq<char>>::empty());
            assert(r@.adaptations =~= Seq::<AdaptationSetV>::empty());
            assert(r@.event_streams =~= Seq::<EventStreamV>::empty());
        }
        r
    }
}

} // verus!
