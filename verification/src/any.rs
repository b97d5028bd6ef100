//! The smallest demonstration of runtime type recovery: a dataless value,
//! erased behind the closed event type and recovered at its exact kind.

use vstd::prelude::*;

use crate::events::Event;
use crate::events::EventKind;
use crate::events::EventView;

verus! {

/// A minimal concrete kind with no data. It exists to show that a value
/// stored behind the closed polymorphic type can be recovered exactly.
#[derive(Debug)]
pub struct Bar;

impl View for Bar {
    type V = ();

    open spec fn view(&self) -> () {
        ()
    }
}

impl EventKind for Bar {
    open spec fn view_of(data: ()) -> EventView {
        EventView::Bar
    }

    open spec fn is_kind(v: EventView) -> bool {
        v is Bar
    }

    proof fn kind_of_view(data: ()) {
    }

    fn wrap(self) -> Event {
        Event::Bar(self)
    }

    fn try_ref(e: &Event) -> Option<&Bar> {
        match e {
            Event::Bar(b) => Some(b),
            _ => None,
        }
    }
}

impl Bar {
    /// Erase this value behind the closed event type, from which
    /// [`Event::downcast`] recovers it.
    pub fn as_any(self) -> (e: Event)
        ensures
            e@ == EventView::Bar,
    {
        self.wrap()
    }
}

} // verus!
