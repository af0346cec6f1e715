//! An in-memory metrics registry: labelled counters, a sessions gauge,
//! and per-endpoint duration totals.  Exposition is left to the host
//! program.

use vstd::prelude::*;
use crate::num::u64_to_string;

verus! {

/// One labelled counter.
#[derive(Clone, Debug, PartialEq)]
pub struct Counter {
    pub key: String,
    pub value: u64,
}

/// Mathematical view of a `Counter`.
pub ghost struct CounterV {
    pub key: Seq<char>,
    pub value: u64,
}

impl View for Counter {
    type V = CounterV;

    open spec fn view(&self) -> CounterV {
        CounterV { key: self.key@, value: self.value }
    }
}

/// The metrics registry.
pub struct Metrics {
    counters: Vec<Counter>,
    active_sessions: u64,
}

/// The value of a counter key: the first matching entry, or zero.
pub open spec fn counter_value(cs: Seq<CounterV>, key: Seq<char>) -> u64
    decreases cs.len(),
{
    if cs.len() == 0 {
        0
    } else if cs.first().key == key {
        cs.first().value
    } else {
        counter_value(cs.drop_first(), key)
    }
}

/// A counter list with `key` raised by `n` (saturating): the first
/// matching entry is raised, or a new entry is appended.
pub open spec fn bumped(cs: Seq<CounterV>, key: Seq<char>, n: u64) -> Seq<CounterV>
    decreases cs.len(),
{
    if cs.len() == 0 {
        seq![CounterV { key, value: n }]
    } else if cs.first().key == key {
        seq![
            CounterV { key, value: sat_add(cs.first().value, n) },
        ] + cs.drop_first()
    } else {
        seq![cs.first()] + bumped(cs.drop_first(), key, n)
    }
}

/// Saturating addition on `u64`.
pub open spec fn sat_add(a: u64, b: u64) -> u64 {
    if a + b > u64::MAX {
        u64::MAX
    } else {
        (a + b) as u64
    }
}

impl Metrics {
    /// The stored counters.
    pub closed spec fn counters_view(&self) -> Seq<CounterV> {
        self.counters@.map_values(|c: Counter| c@)
    }

    /// The active-sessions gauge.
    pub closed spec fn gauge(&self) -> u64 {
        self.active_sessions
    }

    /// An empty registry.
    pub fn new() -> (r: Metrics)
        ensures
            r.counters_view().len() == 0,
            r.gauge() == 0,
    {
        let r = Metrics { counters: Vec::new(), active_sessions: 0 };
        proof {
            assert(r.counters_view() =~= Seq::<CounterV>::empty());
        }
        r
    }

    /// Raise the named counter by `n` (saturating), creating it at `n`
    /// when absent.
    pub fn add(&mut self, key: String, n: u64)
        ensures
            final(self).counters_view() == bumped(old(self).counters_view(), key@, n),
            final(self).gauge() == old(self).gauge(),
    {
        let ghost cs0 = self.counters_view();
        let len = self.counters.len();
        let mut i: usize = 0;
        proof {
            assert(cs0.subrange(0, 0) =~= Seq::<CounterV>::empty());
            assert(cs0.subrange(0, len as int) =~= cs0);
            assert(Seq::<CounterV>::empty() + bumped(cs0, key@, n) =~= bumped(cs0, key@, n));
        }
        while i < len
            invariant
                len == cs0.len(),
                cs0 == self.counters_view(),
                cs0 == old(self).counters_view(),
                self.gauge() == old(self).gauge(),
                0 <= i <= len,
                forall|j: int| 0 <= j < i ==> (#[trigger] cs0[j]).key != key@,
                bumped(cs0, key@, n) == cs0.subrange(0, i as int) + bumped(
                    cs0.subrange(i as int, len as int),
                    key@,
                    n,
                ),
            decreases len - i,
        {
            proof {
                assert(cs0[i as int] == self.counters@[i as int]@);
                assert(cs0.subrange(i as int, len as int).first() == cs0[i as int]);
                assert(cs0.subrange(i as int, len as int).drop_first() =~= cs0.subrange(
                    i + 1,
                    len as int,
                ));
            }
            if crate::text::str_eq(self.counters[i].key.as_str(), key.as_str()) {
                let ghost before = self.counters_view();
                let v = self.counters[i].value;
                let newv = if v > u64::MAX - n {
                    u64::MAX
                } else {
                    v + n
                };
                self.counters[i].value = newv;
                proof {
                    assert(self.counters_view() =~= before.update(
                        i as int,
                        CounterV { key: before[i as int].key, value: newv },
                    ));
                    assert(bumped(cs0.subrange(i as int, len as int), key@, n) =~= seq![
                        CounterV { key: key@, value: sat_add(cs0[i as int].value, n) },
                    ] + cs0.subrange(i + 1, len as int));
                    assert(cs0[i as int].key == key@);
                    assert(newv == sat_add(cs0[i as int].value, n));
                    assert(self.counters_view() =~= cs0.subrange(0, i as int) + bumped(
                        cs0.subrange(i as int, len as int),
                        key@,
                        n,
                    ));
                    assert(self.counters_view() == bumped(old(self).counters_view(), key@, n));
                }
                return;
            }
            proof {
                assert(cs0.subrange(0, i + 1) =~= cs0.subrange(0, i as int) + seq![cs0[i as int]]);
                assert(cs0.subrange(0, i as int) + (seq![cs0[i as int]] + bumped(
                    cs0.subrange(i + 1, len as int),
                    key@,
                    n,
                )) =~= cs0.subrange(0, i + 1) + bumped(cs0.subrange(i + 1, len as int), key@, n));
            }
            i += 1;
        }
        let ghost before = self.counters_view();
        self.counters.push(Counter { key, value: n });
        proof {
            assert(cs0.subrange(i as int, len as int) =~= Seq::<CounterV>::empty());
            assert(bumped(Seq::<CounterV>::empty(), key@, n) =~= seq![
                CounterV { key: key@, value: n },
            ]);
            assert(cs0.subrange(0, len as int) =~= cs0);
            assert(self.counters_view() =~= cs0 + seq![CounterV { key: key@, value: n }]);
        }
    }

    /// Read a counter by key (zero when absent).
    pub fn counter_get(&self, key: &str) -> (r: u64)
        ensures
            r == counter_value(self.counters_view(), key@),
    {
        let ghost cs0 = self.counters_view();
        let len = self.counters.len();
        let mut i: usize = 0;
        proof {
            assert(cs0.subrange(0, len as int) =~= cs0);
        }
        while i < len
            invariant
                len == cs0.len(),
                cs0 == self.counters_view(),
                0 <= i <= len,
                counter_value(cs0, key@) == counter_value(
                    cs0.subrange(i as int, len as int),
                    key@,
                ),
            decreases len - i,
        {
            proof {
                assert(cs0[i as int] == self.counters@[i as int]@);
                assert(cs0.subrange(i as int, len as int).first() == cs0[i as int]);
                assert(cs0.subrange(i as int, len as int).drop_first() =~= cs0.subrange(
                    i + 1,
                    len as int,
                ));
            }
            if crate::text::str_eq(self.counters[i].key.as_str(), key) {
                return self.counters[i].value;
            }
            i += 1;
        }
        proof {
            assert(cs0.subrange(len as int, len as int) =~= Seq::<CounterV>::empty());
        }
        0
    }

    /// The active-sessions gauge value.
    pub fn active_sessions(&self) -> (r: u64)
        ensures
            r == self.gauge(),
    {
        self.active_sessions
    }
}

/// The counter key of a request record.
pub open spec fn request_key(endpoint: Seq<char>, status: u16) -> Seq<char> {
    "requests_total:"@ + endpoint + ":"@ + crate::num::dec_str(status as nat)
}

/// Record an incoming request by endpoint and status.
pub fn record_request(m: &mut Metrics, endpoint: &str, status: u16)
    ensures
        final(m).counters_view() == bumped(old(m).counters_view(), request_key(endpoint@, status),
            1),
        final(m).gauge() == old(m).gauge(),
{
    let mut key = "requests_total:".to_owned();
    key.append(endpoint);
    key.append(":");
    key.append(u64_to_string(status as u64).as_str());
    m.add(key, 1);
}

/// The counter key of a duration total.
pub open spec fn duration_key(endpoint: Seq<char>) -> Seq<char> {
    "request_duration_ms_total:"@ + endpoint
}

/// Record a request's duration: the per-endpoint total advances by the
/// elapsed milliseconds.
pub fn record_duration(m: &mut Metrics, endpoint: &str, elapsed_ms: u64)
    ensures
        final(m).counters_view() == bumped(old(m).counters_view(), duration_key(endpoint@),
            elapsed_ms),
        final(m).gauge() == old(m).gauge(),
{
    let mut key = "request_duration_ms_total:".to_owned();
    key.append(endpoint);
    m.add(key, elapsed_ms);
}

/// Update the active-sessions gauge.
pub fn set_active_sessions(m: &mut Metrics, count: u64)
    ensures
        final(m).gauge() == count,
        final(m).counters_view() == old(m).counters_view(),
{
    m.active_sessions = count;
}

/// Record detected ad breaks.
pub fn record_ad_breaks(m: &mut Metrics, count: u64)
    ensures
        final(m).counters_view() == bumped(old(m).counters_view(), "ad_breaks_detected_total"@,
            count),
        final(m).gauge() == old(m).gauge(),
{
    m.add("ad_breaks_detected_total".to_owned(), count);
}

/// The counter key of a VAST request outcome.
pub open spec fn vast_key(result: Seq<char>) -> Seq<char> {
    "vast_requests_total:"@ + result
}

/// Record a VAST request outcome (`success`, `empty`, `error`).
pub fn record_vast_request(m: &mut Metrics, result: &str)
    ensures
        final(m).counters_view() == bumped(old(m).counters_view(), vast_key(result@), 1),
        final(m).gauge() == old(m).gauge(),
{
    let mut key = "vast_requests_total:".to_owned();
    key.append(result);
    m.add(key, 1);
}

/// Record a slate fallback activation.
pub fn record_slate_fallback(m: &mut Metrics)
    ensures
        final(m).counters_view() == bumped(old(m).counters_view(), "slate_fallbacks_total"@, 1),
        final(m).gauge() == old(m).gauge(),
{
    m.add("slate_fallbacks_total".to_owned(), 1);
}

/// Record an origin fetch error.
pub fn record_origin_error(m: &mut Metrics)
    ensures
        final(m).counters_view() == bumped(old(m).counters_view(), "origin_fetch_errors_total"@,
            1),
        final(m).gauge() == old(m).gauge(),
{
    m.add("origin_fetch_errors_total".to_owned(), 1);
}

/// The counter key of a tracking beacon outcome.
pub open spec fn tracking_key(event: Seq<char>, result: Seq<char>) -> Seq<char> {
    "tracking_beacons_total:"@ + event + ":"@ + result
}

/// Record a tracking beacon by event name and outcome.
pub fn record_tracking_event(m: &mut Metrics, event: &str, result: &str)
    ensures
        final(m).counters_view() == bumped(old(m).counters_view(), tracking_key(event@, result@),
            1),
        final(m).gauge() == old(m).gauge(),
{
    let mut key = "tracking_beacons_total:".to_owned();
    key.append(event);
    key.append(":");
    key.append(result);
    m.add(key, 1);
}

/// Record injected interstitial markers.
pub fn record_interstitials(m: &mut Metrics, count: u64)
    ensures
        final(m).counters_view() == bumped(old(m).counters_view(), "interstitials_injected_total"@,
            count),
        final(m).gauge() == old(m).gauge(),
{
    m.add("interstitials_injected_total".to_owned(), count);
}

/// The counter key of an asset-list request.
pub open spec fn asset_list_key(status: u16) -> Seq<char> {
    "asset_list_requests_total:"@ + crate::num::dec_str(status as nat)
}

/// Record an asset-list request by status.
pub fn record_asset_list_request(m: &mut Metrics, status: u16)
    ensures
        final(m).counters_view() == bumped(old(m).counters_view(), asset_list_key(status), 1),
        final(m).gauge() == old(m).gauge(),
{
    let mut key = "asset_list_requests_total:".to_owned();
    key.append(u64_to_string(status as u64).as_str());
    m.add(key, 1);
}

} // verus!
