//! Packaged events with a direct reference handle.
//!
//! A drained event is paired with a shared, ownership-sharing reference to
//! its emitter. Because the handle shares ownership, resolving it back to
//! the emitter is total: it cannot fail while the handle is held.

use std::rc::Rc;

use vstd::prelude::*;

use crate::events::Event;
use crate::events::EventKind;
use crate::events::EventView;
use crate::events::Events;

verus! {

/// Relies on `std::rc::Rc::clone`: the clone is a new handle to the same
/// allocation, so it carries the same value as the original.
#[verifier::external_body]
fn rc_clone<T>(rc: &Rc<T>) -> (r: Rc<T>)
    ensures
        r == *rc,
{
    Rc::clone(rc)
}

/// A wrapper around an [`Event`] that remembers the emitter, whose type is
/// `T`, through a shared reference handle.
#[derive(Debug)]
pub struct PackagedEvent<T> {
    event: Event,
    emitter: Rc<T>,
}

impl<T> PackagedEvent<T> {
    /// The view of the packaged event value.
    pub closed spec fn event_view(self) -> EventView {
        self.event@
    }

    /// The emitter handle stored at packaging time.
    pub closed spec fn emitter_rc(self) -> Rc<T> {
        self.emitter
    }

    /// Runtime type recovery on the packaged event: the typed data exactly
    /// when the event's kind is `U`, and nothing for every other kind.
    pub fn cast<U: EventKind>(&self) -> (r: Option<&U>)
        ensures
            r is Some <==> U::is_kind(self.event_view()),
            r matches Some(d) ==> self.event_view() == U::view_of(d@),
    {
        self.event.downcast::<U>()
    }

    /// The originating emitter, resolved directly. The handle shares
    /// ownership with the emitter, so this resolution has no failure mode.
    pub fn emitter(&self) -> (r: &Rc<T>)
        ensures
            *r == self.emitter_rc(),
    {
        &self.emitter
    }

    /// Drain `events` and pair each drained event, in order, with a
    /// duplicate of `emitter`. Duplicating the handle shares the emitter;
    /// it does not copy it.
    pub fn package(events: &mut Events, emitter: &Rc<T>) -> (r: Vec<PackagedEvent<T>>)
        ensures
            final(events)@ == Seq::<EventView>::empty(),
            r@.len() == old(events)@.len(),
            forall|i: int|
                0 <= i < r@.len() ==> r@[i].event_view() == old(events)@[i]
                    && r@[i].emitter_rc() == *emitter,
    {
        let mut drained = events.drain_all();
        let mut r: Vec<PackagedEvent<T>> = Vec::new();
        let ghost all = old(events)@;
        while drained.len() > 0
            invariant
                r@.len() + drained@.len() == all.len(),
                forall|i: int|
                    0 <= i < r@.len() ==> #[trigger] r@[i].event_view() == all[i]
                        && r@[i].emitter_rc() == *emitter,
                forall|j: int|
                    0 <= j < drained@.len() ==> #[trigger] drained@[j]@ == all[r@.len() + j],
            decreases drained@.len(),
        {
            let e = drained.remove(0);
            let p = PackagedEvent { event: e, emitter: rc_clone(emitter) };
            r.push(p);
        }
        r
    }
}

/// Law: the emitter handle is fixed at packaging time. When every packaged
/// event of one drain carries the handle given then (as [`PackagedEvent::package`]
/// ensures), any two of them resolve to one and the same emitter: the one
/// the handle was made for.
pub proof fn lemma_packaged_emitter_fixed<T>(
    r: Seq<PackagedEvent<T>>,
    emitter: Rc<T>,
    i: int,
    j: int,
)
    requires
        forall|k: int| 0 <= k < r.len() ==> (#[trigger] r[k]).emitter_rc() == emitter,
        0 <= i < r.len(),
        0 <= j < r.len(),
    ensures
        r[i].emitter_rc() == r[j].emitter_rc(),
        r[i].emitter_rc() == emitter,
{
}

} // verus!
