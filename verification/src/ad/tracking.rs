//! Quartile threshold-crossing selection of tracking events.
//!
//! An event fires on the first segment whose progress crosses its
//! quartile boundary, so every quartile fires even for very short ads.

use vstd::prelude::*;
use crate::ad::vast::{TrackingEvent, TrackingEventV};

verus! {

/// Progress crosses quarter `q` (of four) at segment `i` of `n`:
/// `i/(n-1) >= q/4` while the previous segment was still below, with a
/// single segment counting as full progress.
pub open spec fn crosses(i: int, n: int, q: int) -> bool {
    n == 1 || (4 * i >= q * (n - 1) && (i == 0 || 4 * (i - 1) < q * (n - 1)))
}

/// Whether the named event fires at segment `i` of `n`.  Unknown names
/// never fire.
pub open spec fn fires(event: Seq<char>, i: int, n: int) -> bool {
    if n <= 0 {
        false
    } else if event == "start"@ {
        i == 0
    } else if event == "firstQuartile"@ {
        crosses(i, n, 1)
    } else if event == "midpoint"@ {
        crosses(i, n, 2)
    } else if event == "thirdQuartile"@ {
        crosses(i, n, 3)
    } else if event == "complete"@ {
        i == n - 1
    } else {
        false
    }
}

/// Executable threshold test for quarter `q`.
fn crosses_exec(i: usize, n: usize, q: u64) -> (r: bool)
    requires
        1 <= q <= 3,
        n >= 1,
    ensures
        r == crosses(i as int, n as int, q as int),
{
    if n == 1 {
        return true;
    }
    let prog = 4u128 * (i as u128);
    let m: u128 = (n as u128) - 1;
    let bound: u128 = if q == 1 {
        m
    } else if q == 2 {
        2 * m
    } else {
        3 * m
    };
    prog >= bound && (i == 0 || 4 * ((i as u128) - 1) < bound)
}

/// Determine which tracking events fire for this segment, in the order
/// they were given.
pub fn events_for_segment<'a>(
    segment_index: usize,
    total_segments: usize,
    tracking_events: &'a Vec<TrackingEvent>,
) -> (r: Vec<&'a TrackingEvent>)
    ensures
        r@.map_values(|e: &TrackingEvent| e@) == tracking_events@.map_values(
            |e: TrackingEvent| e@,
        ).filter(
            |e: TrackingEventV| fires(e.event, segment_index as int, total_segments as int),
        ),
{
    let ghost evs = tracking_events@.map_values(|e: TrackingEvent| e@);
    let ghost pred = |e: TrackingEventV| fires(
        e.event,
        segment_index as int,
        total_segments as int,
    );
    let mut out: Vec<&TrackingEvent> = Vec::new();
    assert(evs.subrange(0, 0) =~= Seq::<TrackingEventV>::empty());
    assert(Seq::<TrackingEventV>::empty().filter(pred) =~= Seq::<TrackingEventV>::empty()) by {
        reveal(Seq::filter);
    }
    if total_segments == 0 {
        proof {
            lemma_filter_none(evs, pred);
        }
        return out;
    }
    let n = tracking_events.len();
    let mut i: usize = 0;
    while i < n
        invariant
            n == evs.len(),
            evs == tracking_events@.map_values(|e: TrackingEvent| e@),
            pred == (|e: TrackingEventV| fires(
                e.event,
                segment_index as int,
                total_segments as int,
            )),
            0 <= i <= n,
            total_segments >= 1,
            out@.map_values(|e: &TrackingEvent| e@) == evs.subrange(0, i as int).filter(pred),
        decreases n - i,
    {
        let event = &tracking_events[i];
        let should_fire: bool = if str_is(event.event.as_str(), "start") {
            segment_index == 0
        } else if str_is(event.event.as_str(), "firstQuartile") {
            crosses_exec(segment_index, total_segments, 1)
        } else if str_is(event.event.as_str(), "midpoint") {
            crosses_exec(segment_index, total_segments, 2)
        } else if str_is(event.event.as_str(), "thirdQuartile") {
            crosses_exec(segment_index, total_segments, 3)
        } else if str_is(event.event.as_str(), "complete") {
            segment_index == total_segments - 1
        } else {
            false
        };
        proof {
            reveal(Seq::filter);
            assert(evs.subrange(0, i + 1).drop_last() =~= evs.subrange(0, i as int));
            assert(evs.subrange(0, i + 1).last() == evs[i as int]);
            assert(evs[i as int] == tracking_events@[i as int]@);
            assert(should_fire == pred(evs[i as int]));
        }
        let ghost out0 = out@;
        if should_fire {
            out.push(event);
            proof {
                assert(out@.map_values(|e: &TrackingEvent| e@) =~= out0.map_values(
                    |e: &TrackingEvent| e@,
                ).push(evs[i as int]));
            }
        }
        i += 1;
    }
    proof {
        assert(evs.subrange(0, n as int) =~= evs);
    }
    out
}

/// With no segments, nothing fires.
proof fn lemma_filter_none(evs: Seq<TrackingEventV>, pred: spec_fn(TrackingEventV) -> bool)
    requires
        forall|e: TrackingEventV| #![trigger pred(e)] !pred(e),
    ensures
        evs.filter(pred) == Seq::<TrackingEventV>::empty(),
    decreases evs.len(),
{
    reveal(Seq::filter);
    if evs.len() > 0 {
        lemma_filter_none(evs.drop_last(), pred);
        assert(!pred(evs.last()));
    }
    assert(evs.filter(pred) =~= Seq::<TrackingEventV>::empty());
}

/// String comparison against a known event name.
fn str_is(s: &str, lit: &str) -> (r: bool)
    ensures
        r == (s@ == lit@),
{
    crate::text::str_eq(s, lit)
}

/// Quartile coverage: over any ad of `n >= 1` segments, each of the
/// five standard event names fires on exactly one segment index.
pub proof fn lemma_quartile_coverage(event: Seq<char>, n: int)
    requires
        n >= 1,
        event == "start"@ || event == "firstQuartile"@ || event == "midpoint"@
            || event == "thirdQuartile"@ || event == "complete"@,
    ensures
        exists|i: int| 0 <= i < n && #[trigger] fires(event, i, n),
        forall|i: int, j: int|
            0 <= i < n && 0 <= j < n && #[trigger] fires(event, i, n) && #[trigger] fires(
                event,
                j,
                n,
            ) ==> i == j,
{
    reveal_strlit("start");
    reveal_strlit("firstQuartile");
    reveal_strlit("midpoint");
    reveal_strlit("thirdQuartile");
    reveal_strlit("complete");
    assert("start"@.len() == 5);
    assert("firstQuartile"@.len() == 13);
    assert("midpoint"@.len() == 8);
    assert("thirdQuartile"@.len() == 13);
    assert("complete"@.len() == 8);
    assert("midpoint"@[0] == 'm' && "complete"@[0] == 'c');
    assert("firstQuartile"@[0] == 'f' && "thirdQuartile"@[0] == 't');
    if n == 1 {
        assert(fires(event, 0, n));
    } else if event == "start"@ {
        assert(fires(event, 0, n));
    } else if event == "complete"@ {
        assert(fires(event, n - 1, n));
    } else {
        let q: int = if event == "firstQuartile"@ {
            1
        } else if event == "midpoint"@ {
            2
        } else {
            3
        };
        let m = q * (n - 1);
        let w = (m + 3) / 4;
        assert(1 <= m) by {
            assert(n - 1 >= 1);
            assert(q >= 1);
            assert(q * (n - 1) >= 1) by (nonlinear_arith)
                requires
                    q >= 1,
                    n - 1 >= 1,
            ;
        };
        assert(4 * w >= m);
        assert(4 * (w - 1) < m);
        assert(w >= 1);
        assert(w <= n - 1) by {
            assert(m <= 3 * (n - 1)) by (nonlinear_arith)
                requires
                    q <= 3,
                    n - 1 >= 1,
                    m == q * (n - 1),
            ;
            assert(w <= (3 * (n - 1) + 3) / 4);
        };
        assert(fires(event, w, n));
        assert forall|i: int, j: int|
            0 <= i < n && 0 <= j < n && #[trigger] fires(event, i, n) && #[trigger] fires(
                event,
                j,
                n,
            ) implies i == j by {
            if i < j {
                assert(4 * (j - 1) < m);
                assert(4 * i >= m);
            }
            if j < i {
                assert(4 * (i - 1) < m);
                assert(4 * j >= m);
            }
        }
    }
}

} // verus!
