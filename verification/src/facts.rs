//! What holds of every layout: what a window shows that lies beside the events, how events at
//! the edges of the window are treated, and what the lengths of a layout add up to.
//!
//! A window that lies after the events has the empty layout. What is said here of the gaps of a
//! layout and of the sum of its lengths is said of the other windows.

use crate::event::{ascending, lies_after_the_events, spaced, TimeEvent, TimelineWindow};
use crate::layout::{gap_end, gap_length, gap_offset, laid_out, layout_of, shown, span_at};
use crate::layout::{shown_with_one_more, taken_before, Span};
use crate::scalar::Scalar;
use vstd::prelude::*;

verus! {

/// The gap that spans the whole window. Where the end of the window is not after its start, it
/// is empty and lies at the end.
pub open spec fn gap_over<I: Scalar, V>(window: TimelineWindow<I>) -> Span<V> {
    Span::Gap {
        offset: gap_offset(window.start.value(), window.end.value()),
        length: window.length(),
    }
}

/// The sum of the lengths of the stretches.
pub open spec fn total_length<V>(spans: Seq<Span<V>>) -> nat
    decreases spans.len(),
{
    if spans.len() == 0 {
        0
    } else {
        total_length(spans.drop_last()) + spans.last().length()
    }
}

/// By how much the axis is taken beyond the point that gap `k` leads to: the length that the
/// gap would have below zero.
pub open spec fn overrun<I: Scalar, V>(
    seen: Seq<TimeEvent<I, V>>,
    window: TimelineWindow<I>,
    k: int,
) -> nat {
    let taken = taken_before(seen, window, k);
    let end = gap_end(seen, window, k);
    if end < taken {
        (taken - end) as nat
    } else {
        0
    }
}

/// The sum of the overruns of the first `count` gaps.
pub open spec fn overruns<I: Scalar, V>(
    seen: Seq<TimeEvent<I, V>>,
    window: TimelineWindow<I>,
    count: nat,
) -> nat
    decreases count,
{
    if count == 0 {
        0
    } else {
        overruns(seen, window, (count - 1) as nat) + overrun(seen, window, count - 1)
    }
}

/// Whether the layout fits the window exactly: the axis is never taken beyond the point that a
/// gap leads to, so that no gap is cut short at zero. This asks that the window does not end
/// before it starts, and that of the events seen through it none begins before the window or
/// before the one before it is over, and the last is over by the end of the window.
pub open spec fn fits<I: Scalar, V>(
    events: Seq<TimeEvent<I, V>>,
    window: TimelineWindow<I>,
) -> bool {
    let seen = shown(events, window);
    forall|k: int| 0 <= k <= seen.len() ==> overrun(seen, window, k) == 0
}

/// Every event that is shown is one of the events, and overlaps the window.
pub proof fn shown_are_events_that_overlap<I: Scalar, V>(
    events: Seq<TimeEvent<I, V>>,
    window: TimelineWindow<I>,
)
    ensures
        forall|k: int|
            0 <= k < shown(events, window).len() ==> events.contains(
                #[trigger] shown(events, window)[k],
            ) && shown(events, window)[k].overlaps(window),
    decreases events.len(),
{
    if events.len() == 0 {
        assert(shown(events, window) == events) by {
            reveal(Seq::filter);
        }
    } else {
        let rest = events.drop_last();
        let last = events.last();
        assert(events == rest.push(last));
        shown_with_one_more(rest, window, last);
        shown_are_events_that_overlap(rest, window);
        assert forall|k: int| 0 <= k < shown(events, window).len() implies events.contains(
            #[trigger] shown(events, window)[k],
        ) && shown(events, window)[k].overlaps(window) by {
            if k < shown(rest, window).len() {
                let i = choose|i: int| 0 <= i < rest.len() && rest[i] == shown(rest, window)[k];
                assert(events[i] == shown(events, window)[k]);
            } else {
                assert(events[events.len() - 1] == shown(events, window)[k]);
            }
        }
    }
}

/// Where no event overlaps the window, none is shown.
pub proof fn nothing_overlaps_nothing_shown<I: Scalar, V>(
    events: Seq<TimeEvent<I, V>>,
    window: TimelineWindow<I>,
)
    requires
        forall|i: int| 0 <= i < events.len() ==> !events[i].overlaps(window),
    ensures
        shown(events, window).len() == 0,
{
    shown_are_events_that_overlap(events, window);
    if shown(events, window).len() > 0 {
        assert(events.contains(shown(events, window)[0]));
    }
}

/// Where the window lies after the events, none of them is shown, and the layout is empty.
pub proof fn window_after_the_events_is_empty<I: Scalar, V>(
    events: Seq<TimeEvent<I, V>>,
    window: TimelineWindow<I>,
)
    requires
        lies_after_the_events(events, window),
    ensures
        shown(events, window).len() == 0,
        layout_of(events, window) == Seq::<Span<V>>::empty(),
{
    nothing_overlaps_nothing_shown(events, window);
}

/// Where no event is shown, and the window does not lie after the events, the layout is the one
/// gap that spans the whole window. That is so where there is no event at all.
pub proof fn nothing_shown_is_one_gap<I: Scalar, V>(
    events: Seq<TimeEvent<I, V>>,
    window: TimelineWindow<I>,
)
    requires
        shown(events, window).len() == 0,
        !lies_after_the_events(events, window),
    ensures
        layout_of(events, window) == seq![gap_over::<I, V>(window)],
{
}

/// A window that lies before the first event shows one gap that spans it, where no event begins
/// before the first one, as is so where the events ascend by instant, and where the window
/// does not lie after the events as well, as one that does not end after its start can.
pub proof fn window_before_the_first_event<I: Scalar, V>(
    events: Seq<TimeEvent<I, V>>,
    window: TimelineWindow<I>,
)
    requires
        events.len() > 0,
        forall|i: int| 0 <= i < events.len() ==> events.first().begin() <= events[i].begin(),
        window.end.value() <= events.first().begin(),
        !lies_after_the_events(events, window),
    ensures
        layout_of(events, window) == seq![gap_over::<I, V>(window)],
{
    nothing_overlaps_nothing_shown(events, window);
    nothing_shown_is_one_gap(events, window);
}

/// A window that lies after the last event is left empty, where no event is over after the last
/// one. That is so where the events are spaced.
pub proof fn window_after_the_last_event<I: Scalar, V>(
    events: Seq<TimeEvent<I, V>>,
    window: TimelineWindow<I>,
)
    requires
        events.len() > 0,
        forall|i: int| 0 <= i < events.len() ==> events[i].finish() <= events.last().finish(),
        events.last().finish() <= window.start.value(),
    ensures
        layout_of(events, window) == Seq::<Span<V>>::empty(),
{
}

/// A window that lies in a hole between two events, the one over by its start and the other
/// not begun by its end, shows one gap that spans it, where the events are spaced.
pub proof fn window_between_two_events<I: Scalar, V>(
    events: Seq<TimeEvent<I, V>>,
    window: TimelineWindow<I>,
    i: int,
)
    requires
        spaced(events),
        0 <= i < events.len() - 1,
        events[i].finish() <= window.start.value(),
        window.end.value() <= events[i + 1].begin(),
        window.start.value() < events[i + 1].finish(),
    ensures
        layout_of(events, window) == seq![gap_over::<I, V>(window)],
{
    assert forall|j: int| 0 <= j < events.len() implies !events[j].overlaps(window) by {
        if j < i {
            assert(events[j].finish() <= events[i].begin());
        }
        if i + 1 < j {
            assert(events[i + 1].finish() <= events[j].begin());
        }
    }
    nothing_overlaps_nothing_shown(events, window);
    nothing_shown_is_one_gap(events, window);
}

/// Where the events ascend by instant, none begins before the first one, and none after the last
/// one: the first instant is the earliest, and the last instant the latest.
pub proof fn ascending_events_begin_between_first_and_last<I: Scalar, V>(
    events: Seq<TimeEvent<I, V>>,
)
    requires
        ascending(events),
        events.len() > 0,
    ensures
        forall|i: int|
            0 <= i < events.len() ==> events.first().begin() <= (#[trigger] events[i]).begin()
                <= events.last().begin(),
{
}

/// Spaced events ascend by instant, and none of them is over after the last one.
pub proof fn spaced_events_ascend<I: Scalar, V>(events: Seq<TimeEvent<I, V>>)
    requires
        spaced(events),
    ensures
        ascending(events),
        forall|i: int|
            0 <= i < events.len() ==> (#[trigger] events[i]).finish() <= events.last().finish(),
{
}

/// Events and windows are half-open ranges. An event that is over where the window starts is not
/// seen through it, nor is one that begins where the window ends. An event that lasts some time
/// and begins where the window starts, or is over where the window ends, is seen, if the window
/// ends after its start.
pub proof fn events_at_the_edges<I: Scalar, V>(event: TimeEvent<I, V>, window: TimelineWindow<I>)
    ensures
        event.finish() == window.start.value() ==> !event.overlaps(window),
        event.begin() == window.end.value() ==> !event.overlaps(window),
        event.begin() == window.start.value() && 0 < event.duration.value() && window.start.value()
            < window.end.value() ==> event.overlaps(window),
        event.finish() == window.end.value() && 0 < event.duration.value() && window.start.value()
            < window.end.value() ==> event.overlaps(window),
{
}

/// One more stretch adds its length to the total.
proof fn total_with_one_more<I: Scalar, V>(
    seen: Seq<TimeEvent<I, V>>,
    window: TimelineWindow<I>,
    count: nat,
)
    ensures
        total_length(laid_out(seen, window, count + 1)) == total_length(
            laid_out(seen, window, count),
        ) + span_at(seen, window, count as int).length(),
{
    assert(laid_out(seen, window, count + 1).drop_last() == laid_out(seen, window, count));
}

/// The lengths of the first `k` gaps and events add up to the length from the start of the window
/// to the point up to which the axis is then taken, and the overruns of these gaps.
proof fn total_of_a_part<I: Scalar, V>(
    seen: Seq<TimeEvent<I, V>>,
    window: TimelineWindow<I>,
    k: nat,
)
    requires
        k <= seen.len(),
    ensures
        window.start.value() + total_length(laid_out(seen, window, 2 * k)) == taken_before(
            seen,
            window,
            k as int,
        ) + overruns(seen, window, k),
    decreases k,
{
    if k > 0 {
        let j = (k - 1) as nat;
        total_of_a_part(seen, window, j);
        total_with_one_more(seen, window, 2 * j);
        total_with_one_more(seen, window, 2 * j + 1);
        assert(span_at(seen, window, (2 * j) as int).length() == gap_length(
            taken_before(seen, window, j as int),
            gap_end(seen, window, j as int),
        ));
    }
}

/// The overruns of the first `count` gaps add up to zero just where each of them is zero.
proof fn no_overruns<I: Scalar, V>(seen: Seq<TimeEvent<I, V>>, window: TimelineWindow<I>, count: nat)
    ensures
        overruns(seen, window, count) == 0 <==> forall|k: int|
            0 <= k < count ==> overrun(seen, window, k) == 0,
    decreases count,
{
    if count > 0 {
        no_overruns(seen, window, (count - 1) as nat);
    }
}

/// The lengths of a layout add up to the length from the start of the window to its end, and
/// the overruns of its gaps, where the window does not lie after the events.
pub proof fn lengths_of_a_layout<I: Scalar, V>(
    events: Seq<TimeEvent<I, V>>,
    window: TimelineWindow<I>,
)
    requires
        !lies_after_the_events(events, window),
    ensures
        window.start.value() + total_length(layout_of(events, window)) == window.end.value()
            + overruns(shown(events, window), window, shown(events, window).len() + 1),
{
    let seen = shown(events, window);
    let n = seen.len();
    total_of_a_part(seen, window, n);
    total_with_one_more(seen, window, 2 * n);
}

/// Where the window does not lie after the events, the lengths of a layout add up to the length
/// of the window, from its start to its end, just where the layout fits the window exactly.
pub proof fn lengths_fill_the_window<I: Scalar, V>(
    events: Seq<TimeEvent<I, V>>,
    window: TimelineWindow<I>,
)
    requires
        !lies_after_the_events(events, window),
    ensures
        fits(events, window) <==> total_length(layout_of(events, window)) == window.end.value()
            - window.start.value(),
{
    let seen = shown(events, window);
    lengths_of_a_layout(events, window);
    no_overruns(seen, window, seen.len() + 1);
}

/// In every layout but the empty one, a gap ends where the event after it begins, and the last
/// gap ends where the window ends.
pub proof fn gaps_lead_to_what_follows<I: Scalar, V>(
    events: Seq<TimeEvent<I, V>>,
    window: TimelineWindow<I>,
)
    requires
        !lies_after_the_events(events, window),
    ensures
        forall|k: int|
            #![trigger layout_of(events, window)[2 * k]]
            0 <= k < shown(events, window).len() ==> layout_of(events, window)[2 * k].end()
                == layout_of(events, window)[2 * k + 1].offset(),
        layout_of(events, window).last().end() == window.end.value(),
{
}

/// Where the layout fits the window exactly, and the window does not lie after the events, its
/// stretches tile the window: the first begins
/// where the window starts, each of the others begins where the one before it ends, and the
/// last ends where the window ends.
pub proof fn fitting_layout_tiles_the_window<I: Scalar, V>(
    events: Seq<TimeEvent<I, V>>,
    window: TimelineWindow<I>,
)
    requires
        fits(events, window),
        !lies_after_the_events(events, window),
    ensures
        layout_of(events, window).first().offset() == window.start.value(),
        forall|j: int|
            #![trigger layout_of(events, window)[j]]
            0 <= j < layout_of(events, window).len() - 1 ==> layout_of(events, window)[j].end()
                == layout_of(events, window)[j + 1].offset(),
        layout_of(events, window).last().end() == window.end.value(),
{
    let seen = shown(events, window);
    let layout = layout_of(events, window);
    assert(overrun(seen, window, 0) == 0);
    assert forall|j: int| #![trigger layout[j]] 0 <= j < layout.len() - 1 implies layout[j].end()
        == layout[j + 1].offset() by {
        if j % 2 == 1 {
            assert(overrun(seen, window, j / 2 + 1) == 0);
        }
    }
}

/// The events that are shown are spaced where the events are.
pub proof fn shown_are_spaced<I: Scalar, V>(
    events: Seq<TimeEvent<I, V>>,
    window: TimelineWindow<I>,
)
    requires
        spaced(events),
    ensures
        spaced(shown(events, window)),
    decreases events.len(),
{
    if events.len() == 0 {
        assert(shown(events, window) == events) by {
            reveal(Seq::filter);
        }
    } else {
        let rest = events.drop_last();
        let last = events.last();
        assert(events == rest.push(last));
        shown_with_one_more(rest, window, last);
        shown_are_spaced(rest, window);
        shown_are_events_that_overlap(rest, window);
        let seen = shown(events, window);
        assert forall|i: int, j: int| 0 <= i < j < seen.len() implies seen[i].finish()
            <= seen[j].begin() by {
            if j == shown(rest, window).len() {
                let at = choose|at: int| 0 <= at < rest.len() && rest[at] == shown(rest, window)[i];
                assert(events[at].finish() <= events[events.len() - 1].begin());
            }
        }
    }
}

/// The layout fits the window exactly where the window does not end before it starts, the
/// events are spaced, and each event that overlaps the window lies within it.
pub proof fn spaced_events_within_the_window_fit<I: Scalar, V>(
    events: Seq<TimeEvent<I, V>>,
    window: TimelineWindow<I>,
)
    requires
        window.start.value() <= window.end.value(),
        spaced(events),
        forall|i: int|
            0 <= i < events.len() && events[i].overlaps(window) ==> window.start.value()
                <= events[i].begin() && events[i].finish() <= window.end.value(),
    ensures
        fits(events, window),
{
    let seen = shown(events, window);
    shown_are_spaced(events, window);
    shown_are_events_that_overlap(events, window);
    assert forall|k: int| 0 <= k <= seen.len() implies overrun(seen, window, k) == 0 by {
        if k < seen.len() {
            assert(events.contains(seen[k]));
        }
        if 0 < k {
            assert(events.contains(seen[k - 1]));
        }
    }
}

} // verus!
