use iced_timeline::event::{first_instant, last_instant};
use iced_timeline::{Scalar, TimeEvent, TimelineWindow};

fn event(instant: u64, duration: u64) -> TimeEvent<u64, char> {
    TimeEvent { instant, value: 'x', duration }
}

fn window(start: u64, end: u64) -> TimelineWindow<u64> {
    TimelineWindow { width: 0, start, end }
}

#[test]
fn event_inside_the_window_is_seen() {
    assert!(event(100, 5).is_seen_through(&window(95, 120)));
}

#[test]
fn event_around_the_window_is_seen() {
    assert!(event(0, 1000).is_seen_through(&window(95, 120)));
}

#[test]
fn event_across_an_edge_is_seen() {
    assert!(event(90, 6).is_seen_through(&window(95, 120)));
    assert!(event(119, 6).is_seen_through(&window(95, 120)));
}

#[test]
fn event_beside_the_window_is_not_seen() {
    assert!(!event(10, 5).is_seen_through(&window(95, 120)));
    assert!(!event(200, 5).is_seen_through(&window(95, 120)));
}

#[test]
fn event_at_an_edge_follows_the_half_open_ranges() {
    assert!(!event(90, 5).is_seen_through(&window(95, 120)));
    assert!(event(90, 6).is_seen_through(&window(95, 120)));
    assert!(event(95, 1).is_seen_through(&window(95, 120)));
    assert!(event(119, 1).is_seen_through(&window(95, 120)));
    assert!(!event(120, 1).is_seen_through(&window(95, 120)));
}

#[test]
fn event_that_lasts_no_time_is_not_seen() {
    assert!(!event(100, 0).is_seen_through(&window(95, 120)));
    assert!(!event(95, 0).is_seen_through(&window(95, 120)));
}

#[test]
fn nothing_is_seen_through_a_window_without_length() {
    assert!(!event(90, 20).is_seen_through(&window(100, 100)));
    assert!(!event(90, 40).is_seen_through(&window(120, 95)));
}

#[test]
fn event_that_is_over_beyond_the_scalar_is_seen() {
    assert!(event(u64::MAX - 1, u64::MAX).is_seen_through(&window(0, u64::MAX)));
    assert!(event(5, u64::MAX).is_seen_through(&window(u64::MAX - 1, u64::MAX)));
    assert!(!event(u64::MAX, u64::MAX).is_seen_through(&window(0, u64::MAX)));
}

#[test]
fn first_and_last_instant_of_no_events() {
    let events: Vec<TimeEvent<u64, char>> = Vec::new();
    assert_eq!(first_instant(&events), None);
    assert_eq!(last_instant(&events), None);
}

#[test]
fn first_and_last_instant_of_one_event() {
    let events = vec![event(7, 3)];
    assert_eq!(first_instant(&events), Some(7));
    assert_eq!(last_instant(&events), Some(7));
}

#[test]
fn first_and_last_instant_of_some_events() {
    let events = vec![event(7, 3), event(12, 1), event(40, 2)];
    assert_eq!(first_instant(&events), Some(7));
    assert_eq!(last_instant(&events), Some(40));
}

#[test]
fn scalars_of_eight_bits() {
    assert_eq!(<u8 as Scalar>::zero(), 0);
    assert!(3u8.precedes(4));
    assert!(!4u8.precedes(4));
    assert!(!5u8.precedes(4));
    assert_eq!(u8::MAX.since(1), 254);
    assert_eq!(9u8.since(9), 0);
}

#[test]
fn scalars_of_sixteen_bits() {
    assert_eq!(<u16 as Scalar>::zero(), 0);
    assert!(3u16.precedes(4));
    assert!(!4u16.precedes(4));
    assert!(!5u16.precedes(4));
    assert_eq!(u16::MAX.since(1), 65534);
    assert_eq!(9u16.since(9), 0);
}

#[test]
fn scalars_of_thirty_two_bits() {
    assert_eq!(<u32 as Scalar>::zero(), 0);
    assert!(3u32.precedes(4));
    assert!(!4u32.precedes(4));
    assert!(!5u32.precedes(4));
    assert_eq!(u32::MAX.since(1), 4294967294);
    assert_eq!(9u32.since(9), 0);
}

#[test]
fn scalars_of_sixty_four_bits() {
    assert_eq!(<u64 as Scalar>::zero(), 0);
    assert!(3u64.precedes(4));
    assert!(!4u64.precedes(4));
    assert!(!5u64.precedes(4));
    assert_eq!(u64::MAX.since(1), 18446744073709551614);
    assert_eq!(9u64.since(9), 0);
}

#[test]
fn scalars_of_a_hundred_and_twenty_eight_bits() {
    assert_eq!(<u128 as Scalar>::zero(), 0);
    assert!(3u128.precedes(4));
    assert!(!4u128.precedes(4));
    assert!(!5u128.precedes(4));
    assert_eq!(u128::MAX.since(u128::MAX - 7), 7);
    assert_eq!(9u128.since(9), 0);
}

#[test]
fn scalars_of_the_size_of_a_pointer() {
    assert_eq!(<usize as Scalar>::zero(), 0);
    assert!(3usize.precedes(4));
    assert!(!4usize.precedes(4));
    assert!(!5usize.precedes(4));
    assert_eq!(usize::MAX.since(usize::MAX - 7), 7);
    assert_eq!(9usize.since(9), 0);
}

#[test]
fn event_is_over_by_its_end_and_not_before() {
    assert!(event(100, 5).is_over_by(105));
    assert!(event(100, 5).is_over_by(200));
    assert!(!event(100, 5).is_over_by(104));
    assert!(!event(100, 5).is_over_by(100));
    assert!(!event(100, 5).is_over_by(50));
    assert!(event(100, 0).is_over_by(100));
    assert!(!event(100, 0).is_over_by(99));
}

#[test]
fn event_that_is_over_beyond_the_scalar_is_never_over() {
    assert!(!event(u64::MAX - 1, 2).is_over_by(u64::MAX));
    assert!(event(u64::MAX - 1, 1).is_over_by(u64::MAX));
    assert!(!event(5, u64::MAX).is_over_by(u64::MAX));
}
