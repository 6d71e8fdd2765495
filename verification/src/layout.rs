//! How the events that are seen through a window are laid out along it.
//!
//! The events that overlap the window are taken in the order in which they stand. Before each
//! of them comes a gap, from the point up to which the axis is taken already to the point at
//! which the event begins; then comes the event itself, with its full duration. After the last
//! of them a gap leads to the end of the window. The axis is taken from the start of the window
//! at first, and up to the end of the latest event laid out after that.
//!
//! A window that lies after the events, each of them being over by the point at which it
//! starts, is left empty: nothing is laid out in it, not even a gap. Where there is no event at
//! all, and where the window lies before the events or in a hole between them, one gap spans
//! the window.
//!
//! A gap never has a negative length. Where the axis is taken beyond the point that a gap leads
//! to, because an event begins before the window or before an earlier event is over, or lasts
//! beyond the end of the window, the gap is empty and lies at that point.

use crate::event::{lies_after_the_events, TimeEvent, TimelineWindow};
use crate::scalar::Scalar;
use vstd::prelude::*;

verus! {

/// A stretch of the time axis, in numbers: empty time, or the time of an event that shows
/// `value`. It begins at `offset` and is `length` long.
pub enum Span<V> {
    Gap { offset: nat, length: nat },
    Content { offset: nat, length: nat, value: V },
}

/// A stretch of the time axis as the host gets it: empty time, or the time of an event that shows
/// `value`. It begins at `offset` and is `length` long.
#[derive(Debug, PartialEq, Eq)]
pub enum Piece<I, V> {
    Gap { offset: I, length: I },
    Content { offset: I, length: I, value: V },
}

impl<I: Scalar, V> DeepView for Piece<I, V> {
    type V = Span<V>;

    open spec fn deep_view(&self) -> Span<V> {
        match *self {
            Piece::Gap { offset, length } => Span::Gap {
                offset: offset.value(),
                length: length.value(),
            },
            Piece::Content { offset, length, value } => Span::Content {
                offset: offset.value(),
                length: length.value(),
                value,
            },
        }
    }
}

impl<V> Span<V> {
    /// Where the stretch ends: the first point that is no longer part of it.
    pub open spec fn end(self) -> nat {
        self.offset() + self.length()
    }

    /// Where the stretch begins.
    pub open spec fn offset(self) -> nat {
        match self {
            Span::Gap { offset, .. } => offset,
            Span::Content { offset, .. } => offset,
        }
    }

    /// How long the stretch is.
    pub open spec fn length(self) -> nat {
        match self {
            Span::Gap { length, .. } => length,
            Span::Content { length, .. } => length,
        }
    }
}

/// The events that are seen through the window: those that overlap it, in the order in which
/// they stand in `events`.
pub open spec fn shown<I: Scalar, V>(
    events: Seq<TimeEvent<I, V>>,
    window: TimelineWindow<I>,
) -> Seq<TimeEvent<I, V>> {
    events.filter(|event: TimeEvent<I, V>| event.overlaps(window))
}

/// The point up to which the axis is taken when the first `k` of the events `seen` are laid out:
/// the start of the window at first, then the point at which the latest of them is over.
pub open spec fn taken_before<I: Scalar, V>(
    seen: Seq<TimeEvent<I, V>>,
    window: TimelineWindow<I>,
    k: int,
) -> nat {
    if k <= 0 {
        window.start.value()
    } else {
        seen[k - 1].finish()
    }
}

/// The point that gap `k` leads to: the beginning of event `k` of those `seen`, and the end of
/// the window after the last of them.
pub open spec fn gap_end<I: Scalar, V>(
    seen: Seq<TimeEvent<I, V>>,
    window: TimelineWindow<I>,
    k: int,
) -> nat {
    if k < seen.len() {
        seen[k].begin()
    } else {
        window.end.value()
    }
}

/// Where a gap begins that leads to `end` when the axis is taken up to `taken`.
pub open spec fn gap_offset(taken: nat, end: nat) -> nat {
    if taken < end {
        taken
    } else {
        end
    }
}

/// How long a gap is that leads to `end` when the axis is taken up to `taken`.
pub open spec fn gap_length(taken: nat, end: nat) -> nat {
    if taken < end {
        (end - taken) as nat
    } else {
        0
    }
}

/// Stretch `j` of the layout of the events `seen`: gap `j / 2` where `j` is even, and event
/// `j / 2` where it is odd.
pub open spec fn span_at<I: Scalar, V>(
    seen: Seq<TimeEvent<I, V>>,
    window: TimelineWindow<I>,
    j: int,
) -> Span<V> {
    let k = j / 2;
    if j % 2 == 0 {
        Span::Gap {
            offset: gap_offset(taken_before(seen, window, k), gap_end(seen, window, k)),
            length: gap_length(taken_before(seen, window, k), gap_end(seen, window, k)),
        }
    } else {
        Span::Content {
            offset: seen[k].begin(),
            length: seen[k].duration.value(),
            value: seen[k].value,
        }
    }
}

/// The first `count` stretches of the layout of the events `seen`.
pub open spec fn laid_out<I: Scalar, V>(
    seen: Seq<TimeEvent<I, V>>,
    window: TimelineWindow<I>,
    count: nat,
) -> Seq<Span<V>> {
    Seq::new(count, |j: int| span_at(seen, window, j))
}

/// The layout of `events` in `window`: nothing where the window lies after the events, and
/// else for each event that is seen through the window a gap and the event, and one more gap at
/// the end.
pub open spec fn layout_of<I: Scalar, V>(
    events: Seq<TimeEvent<I, V>>,
    window: TimelineWindow<I>,
) -> Seq<Span<V>> {
    let seen = shown(events, window);
    if lies_after_the_events(events, window) {
        Seq::empty()
    } else {
        laid_out(seen, window, 2 * seen.len() + 1)
    }
}

/// One more event at the end of `events` is one more at the end of those shown where it
/// overlaps the window, and changes nothing where it does not.
pub proof fn shown_with_one_more<I: Scalar, V>(
    events: Seq<TimeEvent<I, V>>,
    window: TimelineWindow<I>,
    event: TimeEvent<I, V>,
)
    ensures
        shown(events.push(event), window) == (if event.overlaps(window) {
            shown(events, window).push(event)
        } else {
            shown(events, window)
        }),
{
    reveal(Seq::filter);
    assert(events.push(event).drop_last() == events);
}

/// With one more event at the end of those seen, the layout goes on with the gap that leads to
/// that event, and with the event.
proof fn laid_out_with_one_more<I: Scalar, V>(
    seen: Seq<TimeEvent<I, V>>,
    window: TimelineWindow<I>,
    event: TimeEvent<I, V>,
)
    ensures
        laid_out(seen.push(event), window, 2 * seen.len() + 2) == laid_out(
            seen,
            window,
            2 * seen.len(),
        ).push(
            Span::Gap {
                offset: gap_offset(taken_before(seen, window, seen.len() as int), event.begin()),
                length: gap_length(taken_before(seen, window, seen.len() as int), event.begin()),
            },
        ).push(
            Span::Content {
                offset: event.begin(),
                length: event.duration.value(),
                value: event.value,
            },
        ),
{
}

/// Computes the gap that leads to `end` when the axis is taken up to `extent` past `anchor`:
/// where it begins, and how long it is.
pub fn gap_until<I: Scalar>(anchor: I, extent: I, end: I) -> (gap: (I, I))
    ensures
        gap.0.value() == gap_offset(anchor.value() + extent.value(), end.value()),
        gap.1.value() == gap_length(anchor.value() + extent.value(), end.value()),
{
    if anchor.precedes(end) {
        let reach = end.since(anchor);
        if extent.precedes(reach) {
            let length = reach.since(extent);
            (end.since(length), length)
        } else {
            (end, I::zero())
        }
    } else {
        (end, I::zero())
    }
}

/// Lays the events out in the window. A window that lies after the events gets no piece at all.
pub fn layout<I: Scalar, V: Copy>(
    events: &Vec<TimeEvent<I, V>>,
    window: &TimelineWindow<I>,
) -> (pieces: Vec<Piece<I, V>>)
    ensures
        pieces.deep_view() == layout_of(events@, *window),
{
    let mut pieces: Vec<Piece<I, V>> = Vec::new();
    let mut anchor = window.start;
    let mut extent = I::zero();
    let mut all_over = true;
    let mut i: usize = 0;
    assert(shown(events@.take(0), *window).len() == 0) by {
        reveal(Seq::filter);
    }
    while i < events.len()
        invariant
            i <= events.len(),
            all_over == (forall|j: int| 0 <= j < i ==> events@[j].finish() <= window.start.value()),
            all_over ==> shown(events@.take(i as int), *window).len() == 0,
            anchor.value() + extent.value() == taken_before(
                shown(events@.take(i as int), *window),
                *window,
                shown(events@.take(i as int), *window).len() as int,
            ),
            pieces.deep_view() == laid_out(
                shown(events@.take(i as int), *window),
                *window,
                2 * shown(events@.take(i as int), *window).len(),
            ),
        decreases events.len() - i,
    {
        let event = &events[i];
        let ghost seen = shown(events@.take(i as int), *window);
        proof {
            shown_with_one_more(events@.take(i as int), *window, *event);
            assert(events@.take(i + 1) == events@.take(i as int).push(*event));
        }
        if !event.is_over_by(window.start) {
            all_over = false;
        }
        if event.is_seen_through(window) {
            let (offset, length) = gap_until(anchor, extent, event.instant);
            let gap = Piece::Gap { offset, length };
            let content = Piece::Content {
                offset: event.instant,
                length: event.duration,
                value: event.value,
            };
            let ghost before = pieces.deep_view();
            pieces.push(gap);
            pieces.push(content);
            anchor = event.instant;
            extent = event.duration;
            proof {
                laid_out_with_one_more(seen, *window, *event);
                assert(pieces.deep_view() == before.push(gap.deep_view()).push(
                    content.deep_view(),
                ));
            }
        }
        i += 1;
    }
    assert(events@.take(i as int) == events@);
    if all_over && events.len() > 0 {
        return pieces;
    }
    let (offset, length) = gap_until(anchor, extent, window.end);
    let gap = Piece::Gap { offset, length };
    let ghost before = pieces.deep_view();
    pieces.push(gap);
    assert(pieces.deep_view() == before.push(gap.deep_view()));
    pieces
}

} // verus!
