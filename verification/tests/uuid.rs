use std::rc::Rc;

use eventcast::events::uuid::Bar;
use eventcast::events::uuid::EntityRef;
use eventcast::events::uuid::PackagedEvent;
use eventcast::events::uuid::Registry;
use eventcast::events::Events;
use eventcast::events::FooEvent;

#[test]
fn uuid_example() {
    let mut registry: Registry<Bar> = Registry::new();
    let mut bar = Bar::new();
    let eref: EntityRef<Bar> = EntityRef::new(bar.uuid);

    bar.events.emit(FooEvent::new("Quux"));

    let packaged: Vec<PackagedEvent<Bar>> = PackagedEvent::package(&mut bar.events, &eref);

    let bar = Rc::new(bar);
    registry.register(eref.uuid, bar.clone());

    // Pretend we're a listener.
    for packaged_event in &packaged {
        assert!(Rc::ptr_eq(
            &bar,
            packaged_event.emitter().resolve(&registry).unwrap()
        ));
        let message: Option<String> =
            packaged_event.cast::<FooEvent>().map(|e| e.message.clone());
        assert_eq!(Some(String::from("Quux")), message);
    }
}

#[test]
fn removed_identifier_is_not_found() {
    let mut registry: Registry<Bar> = Registry::new();

    let first = Rc::new(Bar::new());
    let second = Rc::new(Bar::new());
    let first_ref: EntityRef<Bar> = EntityRef::new(first.uuid);
    let second_ref: EntityRef<Bar> = EntityRef::new(second.uuid);

    registry.register(first_ref.uuid, first.clone());
    registry.register(second_ref.uuid, second.clone());

    assert!(Rc::ptr_eq(&first, first_ref.resolve(&registry).unwrap()));
    assert!(Rc::ptr_eq(&second, second_ref.resolve(&registry).unwrap()));

    // Simulate the first emitter's teardown.
    let removed = registry.remove(first_ref.uuid);
    assert!(removed.is_some());

    assert!(first_ref.resolve(&registry).is_none());
    assert!(Rc::ptr_eq(&second, second_ref.resolve(&registry).unwrap()));
}

#[test]
fn unregistered_identifier_is_not_found() {
    let registry: Registry<Bar> = Registry::new();
    let stray: EntityRef<Bar> = EntityRef::new(7);
    assert!(stray.resolve(&registry).is_none());

    let mut registry = registry;
    let bar = Rc::new(Bar::new());
    registry.register(bar.uuid, bar.clone());
    let stranger: EntityRef<Bar> = EntityRef::new(bar.uuid.wrapping_add(1));
    assert!(stranger.resolve(&registry).is_none());
}

#[test]
fn register_replaces_earlier_entry() {
    let mut registry: Registry<Bar> = Registry::new();
    let old_emitter = Rc::new(Bar::new());
    let new_emitter = Rc::new(Bar::new());
    let handle: EntityRef<Bar> = EntityRef::new(42);

    registry.register(handle.uuid, old_emitter.clone());
    registry.register(handle.uuid, new_emitter.clone());

    assert!(Rc::ptr_eq(&new_emitter, handle.resolve(&registry).unwrap()));

    let removed = registry.remove(handle.uuid);
    assert!(Rc::ptr_eq(&new_emitter, &removed.unwrap()));
    assert!(handle.resolve(&registry).is_none());
}
