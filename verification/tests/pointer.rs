use std::rc::Rc;

use eventcast::events::pointer::PackagedEvent;
use eventcast::events::Bar;
use eventcast::events::Events;
use eventcast::events::FooEvent;

#[test]
fn cast_at_the_wrong_kind_yields_nothing() {
    let bar = Rc::new(Bar { events: Events::new() });

    let mut events = Events::new();
    events.emit(FooEvent::new("Quux"));

    let packaged: Vec<PackagedEvent<Bar>> = PackagedEvent::package(&mut events, &bar);
    assert_eq!(1, packaged.len());
    assert!(packaged[0].cast::<eventcast::any::Bar>().is_none());
    assert!(packaged[0].cast::<FooEvent>().is_some());
}

#[test]
fn pointer_example() {
    let bar = Rc::new(Bar { events: Events::new() });

    let mut events = Events::new();
    events.emit(FooEvent::new("Quux"));

    let packaged: Vec<PackagedEvent<Bar>> = PackagedEvent::package(&mut events, &bar);

    // Pretend we're a listener.
    for packaged_event in &packaged {
        assert!(Rc::ptr_eq(&bar, packaged_event.emitter()));
        let message: Option<String> =
            packaged_event.cast::<FooEvent>().map(|e| e.message.clone());
        assert_eq!(Some(String::from("Quux")), message);
    }
}
