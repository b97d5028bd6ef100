use eventcast::any::Bar;
use eventcast::events::Event;
use eventcast::events::EventKind;
use eventcast::events::Events;
use eventcast::events::FooEvent;

#[test]
fn drain_returns_events_in_push_order() {
    let mut events = Events::new();
    events.emit(FooEvent::new("first"));
    events.emit(Bar);
    events.emit(FooEvent::new("second"));

    let drained: Vec<Event> = events.drain_all();
    assert_eq!(3, drained.len());
    assert_eq!("first", drained[0].downcast::<FooEvent>().unwrap().message);
    assert!(drained[1].downcast::<Bar>().is_some());
    assert_eq!("second", drained[2].downcast::<FooEvent>().unwrap().message);

    // The queue is empty immediately after the drain.
    assert_eq!(0, events.drain_all().len());
}

#[test]
fn draining_an_empty_queue_yields_nothing() {
    let mut events = Events::new();
    assert_eq!(0, events.drain_all().len());
    assert_eq!(0, events.drain_all().len());
}

#[test]
fn downcast_succeeds_exactly_at_the_event_kind() {
    let foo: Event = FooEvent::new("Quux").wrap();
    assert!(foo.downcast::<FooEvent>().is_some());
    assert!(foo.downcast::<Bar>().is_none());
    assert_eq!("Quux", foo.downcast::<FooEvent>().unwrap().message);

    let bar: Event = Bar.as_any();
    assert!(bar.downcast::<Bar>().is_some());
    assert!(bar.downcast::<FooEvent>().is_none());
}
