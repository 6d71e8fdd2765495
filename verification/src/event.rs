//! Events on a time axis, and the window through which they are seen.

use crate::scalar::Scalar;
use vstd::prelude::*;

verus! {

/// One occurrence on the timeline: it begins at `instant`, lasts for `duration`, and carries a
/// `value` to display.
///
/// The event takes up the half-open range of time from `instant` up to, but not including, the
/// point that lies `duration` after it. That point need not be one that the scalar type holds.
/// A duration is a scalar, and so is never below zero.
pub struct TimeEvent<I, V> {
    pub instant: I,
    pub value: V,
    pub duration: I,
}

/// The visible part of the time axis: the half-open range from `start` up to, but not
/// including, `end`.
///
/// `width` is kept for the host's own use. Nothing here reads it, and nothing keeps it equal to
/// the length from `start` to `end`.
pub struct TimelineWindow<I> {
    pub width: I,
    pub start: I,
    pub end: I,
}

impl<I: Scalar> TimelineWindow<I> {
    /// The length of the window: from `start` to `end`, and zero where `end` is not after `start`.
    pub open spec fn length(self) -> nat {
        if self.start.value() < self.end.value() {
            (self.end.value() - self.start.value()) as nat
        } else {
            0
        }
    }
}

impl<I: Scalar, V> TimeEvent<I, V> {
    /// The point at which the event begins.
    pub open spec fn begin(self) -> nat {
        self.instant.value()
    }

    /// The point at which the event is over: the first one that is no longer part of it.
    pub open spec fn finish(self) -> nat {
        self.instant.value() + self.duration.value()
    }

    /// Whether the event's interval, from `begin()` up to but not including `finish()`, shares a
    /// point with the window.
    ///
    /// Both ranges are half-open. An event that is over exactly where the window starts, or
    /// that begins exactly where the window ends, does not overlap it. An event that lasts no
    /// time has no point to share, and neither has a window whose end is not after its start.
    pub open spec fn overlaps(self, window: TimelineWindow<I>) -> bool {
        &&& self.begin() < self.finish()
        &&& window.start.value() < window.end.value()
        &&& self.begin() < window.end.value()
        &&& window.start.value() < self.finish()
    }

    /// Tells whether the event is over by `point`: no part of it lies at `point` or after it.
    pub fn is_over_by(&self, point: I) -> (over: bool)
        ensures
            over == (self.finish() <= point.value()),
    {
        !point.precedes(self.instant) && !point.since(self.instant).precedes(self.duration)
    }

    /// Tells whether the event is to be seen through `window`.
    pub fn is_seen_through(&self, window: &TimelineWindow<I>) -> (seen: bool)
        ensures
            seen == self.overlaps(*window),
    {
        if !window.start.precedes(window.end) || !self.instant.precedes(window.end) {
            false
        } else if window.start.precedes(self.instant) {
            I::zero().precedes(self.duration)
        } else {
            window.start.since(self.instant).precedes(self.duration)
        }
    }
}

/// Whether the events ascend by instant: none begins before one that stands earlier.
pub open spec fn ascending<I: Scalar, V>(events: Seq<TimeEvent<I, V>>) -> bool {
    forall|i: int, j: int| 0 <= i <= j < events.len() ==> events[i].begin() <= events[j].begin()
}

/// Whether each event is over before the next one begins: the events ascend by instant, and no
/// two of them share a point.
pub open spec fn spaced<I: Scalar, V>(events: Seq<TimeEvent<I, V>>) -> bool {
    forall|i: int, j: int| 0 <= i < j < events.len() ==> events[i].finish() <= events[j].begin()
}

/// Whether the window lies after the events: there are events, and each of them is over by the
/// point at which the window starts.
pub open spec fn lies_after_the_events<I: Scalar, V>(
    events: Seq<TimeEvent<I, V>>,
    window: TimelineWindow<I>,
) -> bool {
    &&& events.len() > 0
    &&& forall|i: int| 0 <= i < events.len() ==> events[i].finish() <= window.start.value()
}

/// The instant of the first event, and `None` where there is no event.
pub open spec fn first_instant_of<I, V>(events: Seq<TimeEvent<I, V>>) -> Option<I> {
    if events.len() == 0 {
        None
    } else {
        Some(events.first().instant)
    }
}

/// The instant of the last event, and `None` where there is no event.
pub open spec fn last_instant_of<I, V>(events: Seq<TimeEvent<I, V>>) -> Option<I> {
    if events.len() == 0 {
        None
    } else {
        Some(events.last().instant)
    }
}

/// Gives the instant of the first event, and `None` where there is no event.
pub fn first_instant<I: Copy, V>(events: &Vec<TimeEvent<I, V>>) -> (earliest: Option<I>)
    ensures
        earliest == first_instant_of(events@),
{
    if events.len() == 0 {
        None
    } else {
        Some(events[0].instant)
    }
}

/// Gives the instant of the last event, and `None` where there is no event.
pub fn last_instant<I: Copy, V>(events: &Vec<TimeEvent<I, V>>) -> (latest: Option<I>)
    ensures
        latest == last_instant_of(events@),
{
    if events.len() == 0 {
        None
    } else {
        Some(events[events.len() - 1].instant)
    }
}

} // verus!
