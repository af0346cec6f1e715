//! SCTE-35 cue detection over MPD EventStreams.

use vstd::prelude::*;
use crate::dash::model::{DashEventV, EventStreamV, Mpd, PeriodV};
use crate::text::{starts_with, str_starts_with};

verus! {

/// The type of SCTE-35 signal detected.
#[derive(Clone, Copy, Debug, PartialEq, Eq, Structural)]
pub enum DashSignalType {
    /// SpliceInsert signalling.
    SpliceInsert,
    /// TimeSignal with a segmentation descriptor.
    TimeSignal,
}

/// An ad break detected from DASH EventStream signalling.
#[derive(Clone, Debug, PartialEq)]
pub struct DashAdBreak {
    /// Index of the Period containing the signal.
    pub period_index: usize,
    /// Period id, if present.
    pub period_id: Option<String>,
    /// Break duration in milliseconds.
    pub duration_ms: u64,
    /// Presentation time within the Period, in milliseconds.
    pub presentation_time_ms: u64,
    /// The signal type.
    pub signal_type: DashSignalType,
}

/// Mathematical view of a `DashAdBreak`.
#[verifier::ext_equal]
pub ghost struct DashAdBreakV {
    pub period_index: int,
    pub period_id: Option<Seq<char>>,
    pub duration_ms: u64,
    pub presentation_time_ms: u64,
    pub signal_type: DashSignalType,
}

impl View for DashAdBreak {
    type V = DashAdBreakV;

    open spec fn view(&self) -> DashAdBreakV {
        DashAdBreakV {
            period_index: self.period_index as int,
            period_id: match self.period_id {
                Some(s) => Some(s@),
                None => None,
            },
            duration_ms: self.duration_ms,
            presentation_time_ms: self.presentation_time_ms,
            signal_type: self.signal_type,
        }
    }
}

/// Whether a scheme id marks SCTE-35 signalling.
pub open spec fn scte35_scheme(s: Seq<char>) -> bool {
    starts_with(s, "urn:scte:scte35:"@)
}

/// Whether a scheme id URI marks SCTE-35 signalling.
pub fn is_scte35_scheme(scheme_id: &str) -> (r: bool)
    ensures
        r == scte35_scheme(scheme_id@),
{
    str_starts_with(scheme_id, "urn:scte:scte35:")
}

/// The break one event yields under timescale `ts`, if valid: a
/// duration must be present, positive and at most ten minutes, and the
/// millisecond values must be representable.
pub open spec fn event_break(
    ev: DashEventV,
    ts: u64,
    pidx: int,
    pid: Option<Seq<char>>,
) -> Option<DashAdBreakV> {
    if ts == 0 {
        None
    } else {
        match ev.duration {
            Some(d) => if d == 0 || d > 600 * (ts as int) {
                None
            } else {
                let pt: u64 = match ev.presentation_time {
                    Some(p) => p,
                    None => 0u64,
                };
                if (pt as int) * 1000 / (ts as int) > u64::MAX {
                    None
                } else {
                    Some(
                        DashAdBreakV {
                            period_index: pidx,
                            period_id: pid,
                            duration_ms: ((d as int) * 1000 / (ts as int)) as u64,
                            presentation_time_ms: ((pt as int) * 1000 / (ts as int)) as u64,
                            signal_type: DashSignalType::SpliceInsert,
                        },
                    )
                }
            },
            None => None,
        }
    }
}

/// Breaks of the events from index `j` on.
pub open spec fn event_breaks_from(
    evs: Seq<DashEventV>,
    j: int,
    ts: u64,
    pidx: int,
    pid: Option<Seq<char>>,
) -> Seq<DashAdBreakV>
    decreases evs.len() - j,
        when j >= 0
{
    if !(0 <= j < evs.len()) {
        Seq::empty()
    } else {
        (match event_break(evs[j], ts, pidx, pid) {
            Some(b) => seq![b],
            None => Seq::empty(),
        }) + event_breaks_from(evs, j + 1, ts, pidx, pid)
    }
}

/// Breaks of one event stream: its events, under its timescale, when
/// its scheme is SCTE-35.
pub open spec fn stream_breaks(es: EventStreamV, pidx: int, pid: Option<Seq<char>>) -> Seq<
    DashAdBreakV,
> {
    let scheme_ok = match es.scheme_id_uri {
        Some(s) => scte35_scheme(s),
        None => false,
    };
    if scheme_ok {
        let ts: u64 = match es.timescale {
            Some(t) => t,
            None => 1u64,
        };
        event_breaks_from(es.events, 0, ts, pidx, pid)
    } else {
        Seq::empty()
    }
}

/// Breaks of a period's event streams from index `j` on.
pub open spec fn period_streams_from(p: PeriodV, j: int, pidx: int) -> Seq<DashAdBreakV>
    decreases p.event_streams.len() - j,
        when j >= 0
{
    if !(0 <= j < p.event_streams.len()) {
        Seq::empty()
    } else {
        stream_breaks(p.event_streams[j], pidx, p.id) + period_streams_from(p, j + 1, pidx)
    }
}

/// Breaks of the periods from index `k` on.
pub open spec fn period_breaks_from(periods: Seq<PeriodV>, k: int) -> Seq<DashAdBreakV>
    decreases periods.len() - k,
        when k >= 0
{
    if !(0 <= k < periods.len()) {
        Seq::empty()
    } else {
        period_streams_from(periods[k], 0, k) + period_breaks_from(periods, k + 1)
    }
}

/// All ad breaks an MPD's SCTE-35 event streams signal.
pub open spec fn dash_breaks(periods: Seq<PeriodV>) -> Seq<DashAdBreakV> {
    period_breaks_from(periods, 0)
}

/// Detect ad breaks from SCTE-35 EventStreams: for every period, every
/// stream whose scheme id begins with the SCTE-35 URN prefix, and every
/// event with a valid duration, one break is emitted in document order.
pub fn detect_dash_ad_breaks(mpd: &Mpd) -> (r: Vec<DashAdBreak>)
    ensures
        r@.map_values(|b: DashAdBreak| b@) == dash_breaks(mpd@.periods),
{
    let ghost periods = mpd@.periods;
    let mut out: Vec<DashAdBreak> = Vec::new();
    let np = mpd.periods.len();
    let mut k: usize = 0;
    proof {
        assert(out@.map_values(|b: DashAdBreak| b@) =~= Seq::<DashAdBreakV>::empty());
        assert(Seq::<DashAdBreakV>::empty() + period_breaks_from(periods, 0) =~= period_breaks_from(
            periods,
            0,
        ));
    }
    while k < np
        invariant
            np == periods.len(),
            periods == mpd@.periods,
            0 <= k <= np,
            dash_breaks(periods) == out@.map_values(|b: DashAdBreak| b@) + period_breaks_from(
                periods,
                k as int,
            ),
        decreases np - k,
    {
        proof {
            assert(periods[k as int] == mpd.periods@[k as int]@);
        }
        let period = &mpd.periods[k];
        let ghost pv = periods[k as int];
        let ns = period.event_streams.len();
        let mut j: usize = 0;
        proof {
            assert(period_breaks_from(periods, k as int) == period_streams_from(pv, 0, k as int)
                + period_breaks_from(periods, k + 1));
        }
        while j < ns
            invariant
                ns == pv.event_streams.len(),
                pv == mpd@.periods[k as int],
                periods == mpd@.periods,
                k < periods.len(),
                0 <= j <= ns,
                dash_breaks(periods) == out@.map_values(|b: DashAdBreak| b@)
                    + period_streams_from(pv, j as int, k as int) + period_breaks_from(
                    periods,
                    k + 1,
                ),
            decreases ns - j,
        {
            proof {
                let ghost jj = j as int;
                assert(pv.event_streams[jj] == mpd.periods@[k as int].event_streams@[jj]@);
            }
            let stream = &mpd.periods[k].event_streams[j];
            let ghost esv = pv.event_streams[j as int];
            let scheme_ok = match &stream.scheme_id_uri {
                Some(s) => is_scte35_scheme(s.as_str()),
                None => false,
            };
            proof {
                assert(period_streams_from(pv, j as int, k as int) == stream_breaks(
                    esv,
                    k as int,
                    pv.id,
                ) + period_streams_from(pv, j + 1, k as int));
            }
            if scheme_ok {
                let timescale: u64 = match stream.timescale {
                    Some(t) => t,
                    None => 1,
                };
                let ne = stream.events.len();
                let mut e: usize = 0;
                proof {
                    assert(stream_breaks(esv, k as int, pv.id) == event_breaks_from(
                        esv.events,
                        0,
                        timescale,
                        k as int,
                        pv.id,
                    ));
                }
                while e < ne
                    invariant
                        ne == esv.events.len(),
                        esv == mpd@.periods[k as int].event_streams[j as int],
                        pv == mpd@.periods[k as int],
                        periods == mpd@.periods,
                        k < periods.len(),
                        j < pv.event_streams.len(),
                        0 <= e <= ne,
                        dash_breaks(periods) == out@.map_values(|b: DashAdBreak| b@)
                            + event_breaks_from(esv.events, e as int, timescale, k as int, pv.id)
                            + period_streams_from(pv, j + 1, k as int) + period_breaks_from(
                            periods,
                            k + 1,
                        ),
                    decreases ne - e,
                {
                    proof {
                        let ghost jj = j as int;
                        assert(esv.events[e as int]
                            == mpd.periods@[k as int].event_streams@[jj].events@[e as int]@);
                        assert(event_breaks_from(esv.events, e as int, timescale, k as int, pv.id)
                            == (match event_break(esv.events[e as int], timescale, k as int, pv.id)
                             {
                            Some(b) => seq![b],
                            None => Seq::<DashAdBreakV>::empty(),
                        }) + event_breaks_from(esv.events, e + 1, timescale, k as int, pv.id));
                    }
                    let event = &mpd.periods[k].event_streams[j].events[e];
                    let pid_owned = period_id_of(&mpd.periods[k]);
                    proof {
                        assert(mpd.periods@[k as int]@ == pv);
                    }
                    let ghost ob = out@.map_values(|b: DashAdBreak| b@);
                    match detect_splice_insert(event, timescale, k, &pid_owned) {
                        Some(b) => {
                            proof {
                                assert(Some(b@) == event_break(
                                    esv.events[e as int],
                                    timescale,
                                    k as int,
                                    pv.id,
                                ));
                            }
                            out.push(b);
                            proof {
                                assert(out@.map_values(|x: DashAdBreak| x@) =~= ob.push(
                                    event_break(
                                        esv.events[e as int],
                                        timescale,
                                        k as int,
                                        pv.id,
                                    )->0,
                                ));
                                assert(ob.push(
                                    event_break(esv.events[e as int], timescale, k as int, pv.id)
                                        ->0,
                                ) =~= ob + seq![
                                    event_break(esv.events[e as int], timescale, k as int, pv.id)
                                        ->0,
                                ]);
                            }
                        },
                        None => {
                            proof {
                                assert(event_break(
                                    esv.events[e as int],
                                    timescale,
                                    k as int,
                                    pv.id,
                                ) is None);
                            }
                        },
                    }
                    e += 1;
                }
            }
            j += 1;
        }
        k += 1;
    }
    proof {
        assert(period_breaks_from(periods, np as int) =~= Seq::<DashAdBreakV>::empty());
    }
    out
}

/// The period id as an owned option (for break construction).
fn period_id_of(period: &crate::dash::model::Period) -> (r: Option<String>)
    ensures
        (match r {
            Some(s) => Some(s@),
            None => None,
        }) == period@.id,
{
    match &period.id {
        Some(s) => Some(s.clone()),
        None => None,
    }
}

/// Detect a SpliceInsert break in one event: the event must carry a
/// duration that is positive and at most ten minutes under the
/// timescale, and the millisecond values must be representable.
fn detect_splice_insert(
    event: &crate::dash::model::DashEvent,
    timescale: u64,
    period_idx: usize,
    period_id: &Option<String>,
) -> (r: Option<DashAdBreak>)
    ensures
        (match r {
            Some(b) => Some(b@),
            None => None,
        }) == event_break(
            event@,
            timescale,
            period_idx as int,
            match period_id {
                Some(s) => Some(s@),
                None => None,
            },
        ),
{
    if timescale == 0 {
        return None;
    }
    let duration_ticks = match event.duration {
        Some(d) => d,
        None => {
            return None;
        },
    };
    if duration_ticks == 0 {
        return None;
    }
    let limit: u128 = 600u128 * (timescale as u128);
    if (duration_ticks as u128) > limit {
        return None;
    }
    let pt: u64 = match event.presentation_time {
        Some(p) => p,
        None => 0,
    };
    let pt_ms_wide: u128 = (pt as u128) * 1000 / (timescale as u128);
    if pt_ms_wide > u64::MAX as u128 {
        return None;
    }
    let d_ms_wide: u128 = (duration_ticks as u128) * 1000 / (timescale as u128);
    assert(d_ms_wide <= 600000) by {
        assert((duration_ticks as int) * 1000 / (timescale as int) <= 600000) by (nonlinear_arith)
            requires
                timescale >= 1,
                1 <= duration_ticks as int <= 600 * (timescale as int),
        ;
    };
    let id = match period_id {
        Some(s) => Some(s.clone()),
        None => None,
    };
    Some(
        DashAdBreak {
            period_index: period_idx,
            period_id: id,
            duration_ms: d_ms_wide as u64,
            presentation_time_ms: pt_ms_wide as u64,
            signal_type: DashSignalType::SpliceInsert,
        },
    )
}

} // verus!
