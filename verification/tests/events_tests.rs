use tilemap::events::{Entity, Events, MapEvent};

fn created(index: usize, handle: usize) -> MapEvent {
    MapEvent::Created { index, handle }
}

#[test]
fn one_swap_delivers_every_event_in_order() {
    let mut events = Events::new();
    events.send(created(0, 10));
    events.send(created(1, 11));
    events.send(created(2, 12));
    events.update();
    let mut reader = events.get_reader();
    let drained = reader.read(&events);
    assert_eq!(drained, vec![created(0, 10), created(1, 11), created(2, 12)]);
}

#[test]
fn two_swaps_without_a_drain_lose_the_older_generation() {
    let mut events = Events::new();
    events.send(created(0, 10));
    events.send(created(1, 11));
    events.update();
    events.update();
    let mut reader = events.get_reader();
    let drained = reader.read(&events);
    assert!(drained.is_empty());
}

#[test]
fn a_reader_sees_each_event_exactly_once_across_frames() {
    let mut events = Events::new();
    let mut reader = events.get_reader();
    events.send(created(0, 10));
    events.update();
    assert_eq!(reader.read(&events), vec![created(0, 10)]);
    events.send(created(1, 11));
    events.update();
    assert_eq!(reader.read(&events), vec![created(1, 11)]);
    assert!(reader.read(&events).is_empty());
}

#[test]
fn events_are_readable_before_the_swap_too() {
    let mut events = Events::new();
    events.send(MapEvent::Removed { index: 4, entity: Entity(7) });
    let mut reader = events.get_reader();
    let drained = reader.read(&events);
    assert_eq!(drained, vec![MapEvent::Removed { index: 4, entity: Entity(7) }]);
    assert!(reader.read(&events).is_empty());
}
