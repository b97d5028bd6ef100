use eventcast::any::Bar;
use eventcast::events::Event;
use eventcast::events::EventKind;

#[test]
fn any_example() {
    {
        let bar = Bar;
        let any: Event = bar.as_any();
        any.downcast::<Bar>().unwrap();
    }

    {
        let bar = Bar;
        let any: Event = bar.wrap();
        any.downcast::<Bar>().unwrap();
    }
}
