//! Timelines that a host lays out as a row of widgets.

use crate::event::{first_instant, first_instant_of, last_instant, last_instant_of};
use crate::event::{lies_after_the_events, TimeEvent, TimelineWindow};
use crate::layout::{gap_offset, gap_until, layout_of, shown, shown_with_one_more, taken_before};
use crate::scalar::Scalar;
use vstd::prelude::*;

verus! {

/// A timeline that a host shows as a widget of its own making.
///
/// The host holds the events and the window, says how an empty widget is made, how an event is
/// added to a widget and, where it wants the window filled up to its end, how a last gap is
/// added. `view` then builds the widget for the events that are seen through the window.
///
/// `I` is the scalar in which time is measured, `V` what an event has to display, and `W` the
/// widget.
pub trait TimelineTrait<I: Scalar, V: Copy, W> {
    /// The events of the timeline.
    fn time_events(&self) -> &Vec<TimeEvent<I, V>>;

    /// The window through which the timeline is seen.
    fn window(&self) -> &TimelineWindow<I>;

    /// The instant of the first event, and `None` where there is no event. Where the events
    /// ascend by instant, none of them begins before it.
    fn earliest_instant(&self) -> (earliest: Option<I>)
        ensures
            exists|events: Vec<TimeEvent<I, V>>| #[trigger]
                call_ensures(Self::time_events, (self,), &events) && earliest == first_instant_of(
                    events@,
                ),
    {
        first_instant(self.time_events())
    }

    /// The instant of the last event, and `None` where there is no event. Where the events
    /// ascend by instant, none of them begins after it.
    fn latest_instant(&self) -> (latest: Option<I>)
        ensures
            exists|events: Vec<TimeEvent<I, V>>| #[trigger]
                call_ensures(Self::time_events, (self,), &events) && latest == last_instant_of(
                    events@,
                ),
    {
        last_instant(self.time_events())
    }

    /// The widget that holds nothing yet.
    fn init_widget(&self) -> W;

    /// Adds to the widget the gap that fills the window up to its end, `gap` long. As it
    /// stands, it adds nothing and returns the widget as it is.
    fn widget_after(widget: W, gap: I) -> (after: W)
        ensures
            !Self::adds_last_gap() ==> after == widget,
    {
        widget
    }

    /// Whether the host adds a last gap of its own in `widget_after`. As it stands, it does
    /// not. A host that gives `widget_after` a body of its own says so here.
    open spec fn adds_last_gap() -> bool {
        false
    }

    /// Adds an event to the widget: first the gap before it, which begins at `offset` and leads
    /// to the instant of the event, then the event itself.
    ///
    /// `view` hands over events that last some time, and an `offset` that is not after the
    /// instant of the event.
    fn widget_add(widget: W, time_event: &TimeEvent<I, V>, offset: I) -> W
        requires
            offset.value() <= time_event.instant.value(),
            0 < time_event.duration.value(),
    ;

    /// Builds the widget of the timeline: from the empty widget, it adds the events that are seen
    /// through the window, one after the other, and then the gap that is left up to the end of
    /// the window. Where the window lies after the events, it adds nothing, and the widget is
    /// the empty one.
    ///
    /// What the widget is lies with the host. What is stated of it here is how it came about:
    /// there is a run of calls, laid down in an `Assembly`, that ends in this widget. The run
    /// gets the events, the window and the empty widget from the timeline. It hands each event
    /// that is seen through the window to `widget_add`, in their order, with the widget that
    /// the call before returned and with the point at which the gap before the event begins.
    /// Where the window lies after the events, the run ends here, with the empty widget. Else
    /// it hands the last of these widgets to `widget_after`, with the length of the gap that
    /// leads to the end of the window.
    fn view(&self) -> (widget: W)
        ensures
            (exists|run: Assembly<I, V, W>|
                {
                    &&& #[trigger] run.follows_layout()
                    &&& call_ensures(Self::time_events, (self,), &run.events)
                    &&& call_ensures(Self::window, (self,), &run.window)
                    &&& call_ensures(Self::init_widget, (self,), run.widgets.first())
                    &&& forall|k: int|
                        0 <= k < run.seen().len() ==> call_ensures(
                            Self::widget_add,
                            (run.widgets[k], &run.seen()[k], #[trigger] run.offsets[k]),
                            run.widgets[k + 1],
                        )
                    &&& lies_after_the_events(run.events@, run.window) ==> widget
                        == run.widgets.first()
                    &&& !lies_after_the_events(run.events@, run.window) ==> call_ensures(
                        Self::widget_after,
                        (run.widgets.last(), run.gap),
                        widget,
                    )
                }),
    {
        let first = self.init_widget();
        let window = self.window();
        let events = self.time_events();
        let mut widget = first;
        let mut anchor = window.start;
        let mut extent = I::zero();
        let mut all_over = true;
        let ghost mut seen = Seq::<TimeEvent<I, V>>::empty();
        let ghost mut widgets = seq![widget];
        let ghost mut offsets = Seq::<I>::empty();
        let mut i: usize = 0;
        proof {
            reveal(Seq::filter);
        }
        while i < events.len()
            invariant
                i <= events.len(),
                seen == shown(events@.take(i as int), *window),
                all_over == (forall|j: int|
                    0 <= j < i ==> events@[j].finish() <= window.start.value()),
                all_over ==> seen.len() == 0,
                anchor.value() + extent.value() == taken_before(seen, *window, seen.len() as int),
                widgets.len() == seen.len() + 1,
                offsets.len() == seen.len(),
                widgets.first() == first,
                widgets.last() == widget,
                forall|k: int|
                    0 <= k < seen.len() ==> (#[trigger] offsets[k]).value() == gap_offset(
                        taken_before(seen, *window, k),
                        seen[k].begin(),
                    ),
                forall|k: int|
                    0 <= k < seen.len() ==> call_ensures(
                        Self::widget_add,
                        (widgets[k], &seen[k], #[trigger] offsets[k]),
                        widgets[k + 1],
                    ),
            decreases events.len() - i,
        {
            let event = &events[i];
            proof {
                shown_with_one_more(events@.take(i as int), *window, *event);
                assert(events@.take(i + 1) == events@.take(i as int).push(*event));
            }
            if !event.is_over_by(window.start) {
                all_over = false;
            }
            if event.is_seen_through(window) {
                let (offset, _) = gap_until(anchor, extent, event.instant);
                widget = Self::widget_add(widget, event, offset);
                anchor = event.instant;
                extent = event.duration;
                proof {
                    seen = seen.push(*event);
                    widgets = widgets.push(widget);
                    offsets = offsets.push(offset);
                }
            }
            i += 1;
        }
        assert(events@.take(i as int) == events@);
        let (_, gap) = gap_until(anchor, extent, window.end);
        if all_over && events.len() > 0 {
            proof {
                let run = Assembly { events: *events, window: *window, widgets, offsets, gap };
                assert(run.follows_layout());
            }
            return widget;
        }
        let result = Self::widget_after(widget, gap);
        proof {
            let run = Assembly { events: *events, window: *window, widgets, offsets, gap };
            assert(run.follows_layout());
        }
        result
    }
}

/// A run of calls by which `view` builds a widget.
pub struct Assembly<I, V, W> {
    /// What `time_events` returned.
    pub events: Vec<TimeEvent<I, V>>,
    /// What `window` returned.
    pub window: TimelineWindow<I>,
    /// The widgets in the order in which they came about: first what `init_widget` returned, then
    /// what each call of `widget_add` returned.
    pub widgets: Seq<W>,
    /// The offset handed to each call of `widget_add`.
    pub offsets: Seq<I>,
    /// The gap handed to `widget_after`, where it is called.
    pub gap: I,
}

impl<I: Scalar, V, W> Assembly<I, V, W> {
    /// The events that are seen through the window, in their order: those that `widget_add` is
    /// called with.
    pub open spec fn seen(self) -> Seq<TimeEvent<I, V>> {
        shown(self.events@, self.window)
    }

    /// Whether the run is as the layout of the events in the window asks: `widget_add` is called
    /// once for each event that is seen, with the point at which the gap before that event
    /// begins in the layout, and `widget_after`, where the window does not lie after the events,
    /// with the length of the last gap of the layout.
    pub open spec fn follows_layout(self) -> bool {
        let layout = layout_of(self.events@, self.window);
        &&& self.widgets.len() == self.seen().len() + 1
        &&& self.offsets.len() == self.seen().len()
        &&& forall|k: int|
            0 <= k < self.seen().len() ==> (#[trigger] self.offsets[k]).value() == layout[2
                * k].offset()
        &&& !lies_after_the_events(self.events@, self.window) ==> self.gap.value()
            == layout.last().length()
    }
}

} // verus!
