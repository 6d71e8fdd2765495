use iced_timeline::{TimeEvent, TimelineTrait, TimelineWindow};

/// What a recording host is asked to add to its widget.
#[derive(Debug, PartialEq)]
enum Call {
    Add { instant: u32, duration: u32, value: char, offset: u32 },
    After { gap: u32 },
}

/// A host whose widget is the list of the calls made to build it.
struct Recording {
    events: Vec<TimeEvent<u32, char>>,
    window: TimelineWindow<u32>,
}

impl TimelineTrait<u32, char, Vec<Call>> for Recording {
    fn time_events(&self) -> &Vec<TimeEvent<u32, char>> {
        &self.events
    }

    fn window(&self) -> &TimelineWindow<u32> {
        &self.window
    }

    fn init_widget(&self) -> Vec<Call> {
        Vec::new()
    }

    fn widget_after(mut widget: Vec<Call>, gap: u32) -> Vec<Call> {
        widget.push(Call::After { gap });
        widget
    }

    fn widget_add(mut widget: Vec<Call>, time_event: &TimeEvent<u32, char>, offset: u32) -> Vec<Call> {
        widget.push(Call::Add {
            instant: time_event.instant,
            duration: time_event.duration,
            value: time_event.value,
            offset,
        });
        widget
    }
}

/// A host whose widget is the row of the lengths of its gaps and events, and that leaves
/// `widget_after` as it stands.
struct Row {
    events: Vec<TimeEvent<u32, char>>,
    window: TimelineWindow<u32>,
}

impl TimelineTrait<u32, char, Vec<u32>> for Row {
    fn time_events(&self) -> &Vec<TimeEvent<u32, char>> {
        &self.events
    }

    fn window(&self) -> &TimelineWindow<u32> {
        &self.window
    }

    fn init_widget(&self) -> Vec<u32> {
        vec![0]
    }

    fn widget_add(mut widget: Vec<u32>, time_event: &TimeEvent<u32, char>, offset: u32) -> Vec<u32> {
        widget.push(time_event.instant - offset);
        widget.push(time_event.duration);
        widget
    }
}

fn event(instant: u32, duration: u32, value: char) -> TimeEvent<u32, char> {
    TimeEvent { instant, value, duration }
}

fn recording(events: Vec<TimeEvent<u32, char>>, start: u32, end: u32) -> Recording {
    Recording { events, window: TimelineWindow { width: 0, start, end } }
}

fn add(instant: u32, duration: u32, value: char, offset: u32) -> Call {
    Call::Add { instant, duration, value, offset }
}

#[test]
fn view_adds_the_events_and_the_last_gap() {
    let host = recording(vec![event(100, 5, 'a'), event(110, 5, 'b')], 95, 120);
    assert_eq!(
        host.view(),
        vec![add(100, 5, 'a', 95), add(110, 5, 'b', 105), Call::After { gap: 5 }]
    );
}

#[test]
fn view_of_no_events_adds_the_gap_over_the_window() {
    let host = recording(Vec::new(), 95, 120);
    assert_eq!(host.view(), vec![Call::After { gap: 25 }]);
}

#[test]
fn view_before_the_first_event_adds_the_gap_over_the_window() {
    let host = recording(vec![event(100, 5, 'a'), event(110, 5, 'b')], 10, 60);
    assert_eq!(host.view(), vec![Call::After { gap: 50 }]);
}

#[test]
fn view_after_the_last_event_is_the_empty_widget() {
    let host = recording(vec![event(100, 5, 'a'), event(110, 5, 'b')], 120, 130);
    assert_eq!(host.view(), vec![]);
    let host = recording(vec![event(100, 5, 'a'), event(110, 5, 'b')], 115, 130);
    assert_eq!(host.view(), vec![]);
    let host = recording(vec![event(100, 5, 'a'), event(110, 5, 'b')], 200, 260);
    assert_eq!(host.view(), vec![]);
}

#[test]
fn view_after_the_last_event_returns_what_init_widget_returned() {
    let host = Row {
        events: vec![event(100, 5, 'a'), event(110, 5, 'b')],
        window: TimelineWindow { width: 10, start: 120, end: 130 },
    };
    assert_eq!(host.view(), host.init_widget());
    assert_eq!(host.view(), vec![0]);
}

#[test]
fn view_in_a_hole_between_two_events_adds_the_gap_over_the_window() {
    let host = recording(vec![event(100, 5, 'a'), event(110, 5, 'b')], 105, 110);
    assert_eq!(host.view(), vec![Call::After { gap: 5 }]);
}

#[test]
fn view_across_the_end_of_the_last_event_adds_the_last_gap() {
    let host = recording(vec![event(100, 5, 'a'), event(110, 5, 'b')], 114, 130);
    assert_eq!(host.view(), vec![add(110, 5, 'b', 110), Call::After { gap: 15 }]);
}

#[test]
fn view_leaves_out_events_at_the_edges() {
    let host = recording(vec![event(90, 5, 'a'), event(100, 5, 'b'), event(120, 5, 'c')], 95, 120);
    assert_eq!(host.view(), vec![add(100, 5, 'b', 95), Call::After { gap: 15 }]);
}

#[test]
fn view_leaves_out_events_that_last_no_time() {
    let host = recording(vec![event(100, 0, 'a'), event(110, 5, 'b')], 95, 120);
    assert_eq!(host.view(), vec![add(110, 5, 'b', 95), Call::After { gap: 5 }]);
}

#[test]
fn view_hands_over_an_offset_that_is_not_after_the_event() {
    let host = recording(vec![event(90, 10, 'a'), event(98, 4, 'b'), event(118, 5, 'c')], 95, 120);
    assert_eq!(
        host.view(),
        vec![add(90, 10, 'a', 90), add(98, 4, 'b', 98), add(118, 5, 'c', 102), Call::After { gap: 0 }]
    );
}

#[test]
fn view_through_a_window_that_ends_before_its_start() {
    let host = recording(vec![event(90, 40, 'a')], 120, 95);
    assert_eq!(host.view(), vec![Call::After { gap: 0 }]);
}

#[test]
fn view_takes_events_out_of_order_as_they_stand() {
    let host = recording(vec![event(110, 5, 'b'), event(100, 5, 'a')], 95, 120);
    assert_eq!(
        host.view(),
        vec![add(110, 5, 'b', 95), add(100, 5, 'a', 100), Call::After { gap: 15 }]
    );
}

#[test]
fn widget_after_leaves_the_widget_as_it_is() {
    let host = Row {
        events: vec![event(100, 5, 'a'), event(110, 5, 'b')],
        window: TimelineWindow { width: 25, start: 95, end: 120 },
    };
    assert_eq!(host.view(), vec![0, 5, 5, 5, 5]);
    assert_eq!(Row::widget_after(vec![1, 2, 3], 9), vec![1, 2, 3]);
}

#[test]
fn earliest_and_latest_instant_of_no_events() {
    let host = recording(Vec::new(), 95, 120);
    assert_eq!(host.earliest_instant(), None);
    assert_eq!(host.latest_instant(), None);
}

#[test]
fn earliest_and_latest_instant_of_some_events() {
    let host = recording(vec![event(100, 5, 'a'), event(110, 5, 'b'), event(300, 1, 'c')], 95, 120);
    assert_eq!(host.earliest_instant(), Some(100));
    assert_eq!(host.latest_instant(), Some(300));
}

fn proportions(
    events: Vec<TimeEvent<u32, char>>,
    start: u32,
    end: u32,
) -> iced_timeline::proportions::Proportions<u32, char> {
    iced_timeline::proportions::Proportions {
        time_events: events,
        window: TimelineWindow { width: 0, start, end },
    }
}

#[test]
fn proportions_of_two_events_inside_the_window() {
    let host = proportions(vec![event(100, 5, 'a'), event(110, 5, 'b')], 95, 120);
    assert_eq!(host.lengths(), vec![5, 5, 5, 5, 5]);
    assert_eq!(host.view(), vec![5, 5, 5, 5, 5]);
}

#[test]
fn proportions_of_a_window_after_the_events() {
    let host = proportions(vec![event(100, 5, 'a'), event(110, 5, 'b')], 120, 130);
    assert_eq!(host.lengths(), vec![]);
    assert_eq!(host.view(), vec![]);
}

#[test]
fn proportions_of_no_events() {
    let host = proportions(Vec::new(), 95, 120);
    assert_eq!(host.lengths(), vec![25]);
    assert_eq!(host.earliest_instant(), None);
}

#[test]
fn proportions_of_events_across_the_edges() {
    let host = proportions(vec![event(90, 10, 'a'), event(118, 5, 'b')], 95, 120);
    assert_eq!(host.lengths(), vec![0, 10, 18, 5, 0]);
}

#[test]
fn proportions_are_the_lengths_of_the_layout() {
    let events = vec![event(10, 5, 'a'), event(95, 3, 'b'), event(98, 2, 'c'), event(104, 7, 'd')];
    let window = TimelineWindow { width: 25, start: 95, end: 120 };
    let mut lengths = Vec::new();
    for piece in iced_timeline::layout(&events, &window) {
        match piece {
            iced_timeline::Piece::Gap { length, .. } => lengths.push(length),
            iced_timeline::Piece::Content { length, .. } => lengths.push(length),
        }
    }
    let host = iced_timeline::proportions::Proportions { time_events: events, window };
    assert_eq!(host.lengths(), lengths);
    assert_eq!(lengths, vec![0, 3, 0, 2, 4, 7, 9]);
}
