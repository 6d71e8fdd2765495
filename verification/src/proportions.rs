//! A timeline in plain numbers.

use crate::event::{lies_after_the_events, TimeEvent, TimelineWindow};
use crate::layout::{layout_of, Span};
use crate::scalar::Scalar;
use crate::timeline::{Assembly, TimelineTrait};
use vstd::prelude::*;

verus! {

/// A timeline that holds its events and its window, and whose widget is a row of lengths: for
/// each event that is seen through the window the length of the gap before it and then its
/// duration, and at the end the length of the last gap. These are the proportions in which a
/// host divides a row among gaps and events.
pub struct Proportions<I, V> {
    pub time_events: Vec<TimeEvent<I, V>>,
    pub window: TimelineWindow<I>,
}

/// The numbers that the scalars stand for.
pub open spec fn values_of<I: Scalar>(scalars: Seq<I>) -> Seq<nat> {
    scalars.map_values(|scalar: I| scalar.value())
}

/// The lengths of the stretches.
pub open spec fn lengths_of<V>(spans: Seq<Span<V>>) -> Seq<nat> {
    spans.map_values(|span: Span<V>| span.length())
}

impl<I: Scalar, V: Copy> TimelineTrait<I, V, Vec<I>> for Proportions<I, V> {
    fn time_events(&self) -> (events: &Vec<TimeEvent<I, V>>)
        ensures
            *events == self.time_events,
    {
        &self.time_events
    }

    fn window(&self) -> (window: &TimelineWindow<I>)
        ensures
            *window == self.window,
    {
        &self.window
    }

    /// The row that holds no length yet.
    fn init_widget(&self) -> (row: Vec<I>)
        ensures
            row@.len() == 0,
    {
        Vec::new()
    }

    open spec fn adds_last_gap() -> bool {
        true
    }

    /// Adds the length of the last gap to the row.
    fn widget_after(widget: Vec<I>, gap: I) -> (row: Vec<I>)
        ensures
            row@ == widget@.push(gap),
    {
        assert(Self::adds_last_gap());
        let mut row = widget;
        row.push(gap);
        row
    }

    /// Adds two lengths to the row: that of the gap from `offset` to the instant of the event,
    /// and the duration of the event.
    fn widget_add(widget: Vec<I>, time_event: &TimeEvent<I, V>, offset: I) -> (row: Vec<I>)
        ensures
            row@.len() == widget@.len() + 2,
            row@.take(widget@.len() as int) == widget@,
            row@[widget@.len() as int].value() == time_event.instant.value() - offset.value(),
            row@[widget@.len() as int + 1] == time_event.duration,
    {
        let mut row = widget;
        row.push(time_event.instant.since(offset));
        row.push(time_event.duration);
        row
    }
}

impl<I: Scalar, V: Copy> Proportions<I, V> {
    /// Gives the lengths of the stretches in the layout of the events in the window, in their
    /// order. This is the widget that `view` builds.
    pub fn lengths(&self) -> (row: Vec<I>)
        ensures
            values_of(row@) == lengths_of(layout_of(self.time_events@, self.window)),
    {
        let row = self.view();
        proof {
            let run = choose|run: Assembly<I, V, Vec<I>>|
                {
                    &&& #[trigger] run.follows_layout()
                    &&& call_ensures(Self::time_events, (self,), &run.events)
                    &&& call_ensures(Self::window, (self,), &run.window)
                    &&& call_ensures(Self::init_widget, (self,), run.widgets.first())
                    &&& forall|k: int|
                        0 <= k < run.seen().len() ==> call_ensures(
                            Self::widget_add,
                            (run.widgets[k], &run.seen()[k], #[trigger] run.offsets[k]),
                            run.widgets[k + 1],
                        )
                    &&& lies_after_the_events(run.events@, run.window) ==> row
                        == run.widgets.first()
                    &&& !lies_after_the_events(run.events@, run.window) ==> call_ensures(
                        Self::widget_after,
                        (run.widgets.last(), run.gap),
                        row,
                    )
                };
            let n = run.seen().len() as int;
            let layout = layout_of(self.time_events@, self.window);
            if lies_after_the_events(run.events@, run.window) {
                assert(values_of(row@) =~= lengths_of(layout));
            } else {
                Self::row_after_some_events(run, run.seen().len());
                assert(values_of(run.widgets[n]@).len() == 2 * n);
                assert forall|i: int| 0 <= i < 2 * n + 1 implies values_of(row@)[i] == lengths_of(
                    layout,
                )[i] by {
                    if i < 2 * n {
                        assert(values_of(run.widgets[n]@)[i] == lengths_of(layout.take(2 * n))[i]);
                    }
                }
            }
        }
        row
    }

    /// After `k` calls of `widget_add` in a run of `view`, the row holds the lengths of the
    /// first `k` gaps and events of the layout.
    proof fn row_after_some_events(run: Assembly<I, V, Vec<I>>, k: nat)
        requires
            run.follows_layout(),
            !lies_after_the_events(run.events@, run.window),
            run.widgets.first()@.len() == 0,
            forall|j: int|
                0 <= j < run.seen().len() ==> call_ensures(
                    Self::widget_add,
                    (run.widgets[j], &run.seen()[j], #[trigger] run.offsets[j]),
                    run.widgets[j + 1],
                ),
            k <= run.seen().len(),
        ensures
            values_of(run.widgets[k as int]@) == lengths_of(
                layout_of(run.events@, run.window).take(2 * k as int),
            ),
        decreases k,
    {
        let seen = run.seen();
        let layout = layout_of(run.events@, run.window);
        if k > 0 {
            let j = (k - 1) as int;
            Self::row_after_some_events(run, j as nat);
            let before = run.widgets[j]@;
            let after = run.widgets[j + 1]@;
            assert(call_ensures(
                Self::widget_add,
                (run.widgets[j], &seen[j], run.offsets[j]),
                run.widgets[j + 1],
            ));
            assert(values_of(before).len() == 2 * j);
            assert forall|i: int| 0 <= i < 2 * k implies values_of(after)[i] == lengths_of(
                layout.take(2 * k as int),
            )[i] by {
                if i < 2 * j {
                    assert(values_of(before)[i] == lengths_of(layout.take(2 * j))[i]);
                }
            }
        }
    }
}

} // verus!
