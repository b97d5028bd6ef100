//! Packaged events with an identifier handle and a registry.
//!
//! Instead of a shared reference, an event remembers its emitter through a
//! process-unique 128-bit identifier. The identifier carries no ownership:
//! resolving it is a lookup in an external registry, and fails with "not
//! found" when the identifier was never registered or has been removed.

use std::marker::PhantomData;
use std::rc::Rc;

use vstd::prelude::*;

use crate::events::Event;
use crate::events::EventKind;
use crate::events::EventView;
use crate::events::Events;

verus! {

/// Relies on `uuid::Uuid::new_v4`, read back through `Uuid::as_u128`: a
/// freshly generated version-4 identifier, random under `getrandom`.
/// Nothing is promised of the value: every consumer of it is verified for
/// every value it may take.
#[verifier::external_body]
fn fresh_uuid() -> u128 {
    ::uuid::Uuid::new_v4().as_u128()
}

/// A lightweight, copyable handle to an emitter of type `T`: an identifier
/// with no ownership relationship to the emitter it names.
#[derive(Debug)]
pub struct EntityRef<T> {
    pub uuid: u128,
    pub phantom: PhantomData<T>,
}

/// A registry mapping identifiers to live emitter references. At most one
/// entry exists per identifier.
pub struct Registry<T> {
    entries: Vec<(u128, Rc<T>)>,
}

impl<T> Registry<T> {
    /// The association built from `entries`, later entries taking
    /// precedence; with unique identifiers, order does not matter.
    pub closed spec fn map_of(entries: Seq<(u128, Rc<T>)>) -> Map<u128, Rc<T>>
        decreases entries.len(),
    {
        if entries.len() == 0 {
            Map::empty()
        } else {
            Self::map_of(entries.drop_last()).insert(entries.last().0, entries.last().1)
        }
    }

    /// Each identifier has at most one entry.
    pub closed spec fn wf(self) -> bool {
        forall|i: int, j: int|
            0 <= i < j < self.entries@.len() ==> self.entries@[i].0 != self.entries@[j].0
    }

    proof fn lemma_map_of_contains(entries: Seq<(u128, Rc<T>)>, id: u128)
        ensures
            Self::map_of(entries).contains_key(id) <==> exists|i: int|
                0 <= i < entries.len() && (#[trigger] entries[i]).0 == id,
        decreases entries.len(),
    {
        if entries.len() > 0 {
            Self::lemma_map_of_contains(entries.drop_last(), id);
            if Self::map_of(entries).contains_key(id) {
                if entries.last().0 == id {
                    assert((entries[entries.len() - 1]).0 == id);
                } else {
                    let i = choose|i: int|
                        0 <= i < entries.drop_last().len() && (#[trigger] entries.drop_last()[i]).0
                            == id;
                    assert((entries[i]).0 == id);
                }
            }
            if exists|i: int| 0 <= i < entries.len() && (#[trigger] entries[i]).0 == id {
                let i = choose|i: int| 0 <= i < entries.len() && (#[trigger] entries[i]).0 == id;
                if i < entries.len() - 1 {
                    assert((entries.drop_last()[i]).0 == id);
                }
            }
        }
    }

    proof fn lemma_map_of_index(entries: Seq<(u128, Rc<T>)>, i: int)
        requires
            0 <= i < entries.len(),
            forall|a: int, b: int|
                0 <= a < b < entries.len() ==> (#[trigger] entries[a]).0 != (#[trigger] entries[b]).0,
        ensures
            Self::map_of(entries)[entries[i].0] == entries[i].1,
        decreases entries.len(),
    {
        if i == entries.len() - 1 {
        } else {
            Self::lemma_map_of_index(entries.drop_last(), i);
            assert(entries.drop_last()[i] == entries[i]);
            assert(entries[i].0 != entries.last().0);
        }
    }

    proof fn lemma_map_of_remove(entries: Seq<(u128, Rc<T>)>, i: int)
        requires
            0 <= i < entries.len(),
            forall|a: int, b: int|
                0 <= a < b < entries.len() ==> (#[trigger] entries[a]).0 != (#[trigger] entries[b]).0,
        ensures
            Self::map_of(entries.remove(i)) == Self::map_of(entries).remove(entries[i].0),
        decreases entries.len(),
    {
        let id = entries[i].0;
        if i == entries.len() - 1 {
            assert(entries.remove(i) =~= entries.drop_last());
            Self::lemma_map_of_contains(entries.drop_last(), id);
            assert forall|k: int| 0 <= k < entries.drop_last().len() implies (#[trigger] entries
                .drop_last()[k]).0 != id by {
                assert(entries[k] == entries.drop_last()[k]);
            }
            assert(!Self::map_of(entries.drop_last()).contains_key(id));
            assert(Self::map_of(entries.drop_last()) =~= Self::map_of(entries).remove(id));
        } else {
            Self::lemma_map_of_remove(entries.drop_last(), i);
            assert(entries.remove(i).drop_last() =~= entries.drop_last().remove(i));
            assert(entries.remove(i).last() == entries.last());
            assert(Self::map_of(entries.remove(i)) == Self::map_of(
                entries.drop_last().remove(i),
            ).insert(entries.last().0, entries.last().1));
            assert(entries.last().0 != id);
            assert(Self::map_of(entries.drop_last()).remove(id).insert(
                entries.last().0,
                entries.last().1,
            ) =~= Self::map_of(entries).remove(id));
        }
    }

    pub fn new() -> (r: Registry<T>)
        ensures
            r.wf(),
            r@ == Map::<u128, Rc<T>>::empty(),
    {
        let r = Registry { entries: Vec::new() };
        proof {
            assert(r@ =~= Map::<u128, Rc<T>>::empty());
        }
        r
    }

    /// Where in the entries an identifier stands, if anywhere.
    fn position(&self, id: u128) -> (r: Option<usize>)
        ensures
            match r {
                Some(i) => i < self.entries@.len() && self.entries@[i as int].0 == id,
                None => forall|i: int|
                    0 <= i < self.entries@.len() ==> (#[trigger] self.entries@[i]).0 != id,
            },
    {
        let mut i: usize = 0;
        while i < self.entries.len()
            invariant
                i <= self.entries@.len(),
                forall|j: int| 0 <= j < i ==> (#[trigger] self.entries@[j]).0 != id,
            decreases self.entries@.len() - i,
        {
            if self.entries[i].0 == id {
                return Some(i);
            }
            i = i + 1;
        }
        None
    }

    /// Insert an entry for `id`, replacing any entry it already has.
    pub fn register(&mut self, id: u128, emitter: Rc<T>)
        requires
            old(self).wf(),
        ensures
            final(self).wf(),
            final(self)@ == old(self)@.insert(id, emitter),
    {
        let _ = self.remove(id);
        let ghost before = self.entries@;
        self.entries.push((id, emitter));
        proof {
            assert(self.entries@.drop_last() =~= before);
            assert forall|a: int, b: int|
                0 <= a < b < self.entries@.len() implies (#[trigger] self.entries@[a]).0
                != (#[trigger] self.entries@[b]).0 by {
                if b == self.entries@.len() - 1 {
                    assert(self.entries@[a] == before[a]);
                    Self::lemma_map_of_contains(before, id);
                }
            }
            assert(self@ =~= old(self)@.insert(id, emitter));
        }
    }

    /// Remove the entry for `id`, if there is one, and return its emitter.
    pub fn remove(&mut self, id: u128) -> (r: Option<Rc<T>>)
        requires
            old(self).wf(),
        ensures
            final(self).wf(),
            final(self)@ == old(self)@.remove(id),
            r is Some <==> old(self)@.contains_key(id),
            r matches Some(e) ==> e == old(self)@[id],
            !final(self)@.contains_key(id),
    {
        proof {
            Self::lemma_map_of_contains(self.entries@, id);
        }
        let pos = self.position(id);
        match pos {
            Some(i) => {
                let ghost before = self.entries@;
                let (_, emitter) = self.entries.remove(i);
                proof {
                    Self::lemma_map_of_index(before, i as int);
                    Self::lemma_map_of_remove(before, i as int);
                    assert forall|a: int, b: int|
                        0 <= a < b < self.entries@.len() implies (#[trigger] self.entries@[a]).0
                        != (#[trigger] self.entries@[b]).0 by {
                        assert(self.entries@ == before.remove(i as int));
                    }
                    Self::lemma_map_of_contains(self.entries@, id);
                }
                Some(emitter)
            },
            None => {
                proof {
                    assert(self@ =~= self@.remove(id));
                }
                None
            },
        }
    }
}

impl<T> View for Registry<T> {
    type V = Map<u128, Rc<T>>;

    closed spec fn view(&self) -> Map<u128, Rc<T>> {
        Self::map_of(self.entries@)
    }
}

impl<T> EntityRef<T> {
    /// Duplicate the handle. This is by hand, as the handle is copyable
    /// whether or not the emitter type is.
    pub fn clone(&self) -> (r: Self)
        ensures
            r.uuid == self.uuid,
    {
        EntityRef::new(self.uuid)
    }

    pub fn new(uuid: u128) -> (r: Self)
        ensures
            r.uuid == uuid,
    {
        EntityRef { uuid, phantom: PhantomData }
    }

    /// Look the identifier up in the registry: the emitter registered under
    /// it, or `None` when the identifier has no entry.
    pub fn resolve<'a>(&self, registry: &'a Registry<T>) -> (r: Option<&'a Rc<T>>)
        requires
            registry.wf(),
        ensures
            r is Some <==> registry@.contains_key(self.uuid),
            r matches Some(e) ==> *e == registry@[self.uuid],
    {
        proof {
            Registry::<T>::lemma_map_of_contains(registry.entries@, self.uuid);
        }
        let pos = registry.position(self.uuid);
        match pos {
            Some(i) => {
                proof {
                    Registry::<T>::lemma_map_of_index(registry.entries@, i as int);
                }
                Some(&registry.entries[i].1)
            },
            None => None,
        }
    }
}

/// A wrapper around an [`Event`] that remembers the emitter, whose type is
/// `T`, through its identifier.
#[derive(Debug)]
pub struct PackagedEvent<T> {
    event: Event,
    emitter: EntityRef<T>,
}

impl<T> PackagedEvent<T> {
    /// The view of the packaged event value.
    pub closed spec fn event_view(self) -> EventView {
        self.event@
    }

    /// The identifier stored at packaging time.
    pub closed spec fn emitter_uuid(self) -> u128 {
        self.emitter.uuid
    }

    /// Runtime type recovery on the packaged event: the typed data exactly
    /// when the event's kind is `U`, and nothing for every other kind.
    pub fn cast<U: EventKind>(&self) -> (r: Option<&U>)
        ensures
            r is Some <==> U::is_kind(self.event_view()),
            r matches Some(d) ==> self.event_view() == U::view_of(d@),
    {
        self.event.downcast::<U>()
    }

    /// The identifier handle of the originating emitter. Unlike a direct
    /// reference handle, it still has to be resolved against a registry.
    pub fn emitter(&self) -> (r: &EntityRef<T>)
        ensures
            r.uuid == self.emitter_uuid(),
    {
        &self.emitter
    }

    /// Drain `events` and pair each drained event, in order, with a copy of
    /// the identifier handle `emitter`.
    pub fn package(events: &mut Events, emitter: &EntityRef<T>) -> (r: Vec<PackagedEvent<T>>)
        ensures
            final(events)@ == Seq::<EventView>::empty(),
            r@.len() == old(events)@.len(),
            forall|i: int|
                0 <= i < r@.len() ==> r@[i].event_view() == old(events)@[i]
                    && r@[i].emitter_uuid() == emitter.uuid,
    {
        let mut drained = events.drain_all();
        let mut r: Vec<PackagedEvent<T>> = Vec::new();
        let ghost all = old(events)@;
        while drained.len() > 0
            invariant
                r@.len() + drained@.len() == all.len(),
                forall|i: int|
                    0 <= i < r@.len() ==> #[trigger] r@[i].event_view() == all[i]
                        && r@[i].emitter_uuid() == emitter.uuid,
                forall|j: int|
                    0 <= j < drained@.len() ==> #[trigger] drained@[j]@ == all[r@.len() + j],
            decreases drained@.len(),
        {
            let e = drained.remove(0);
            let p = PackagedEvent { event: e, emitter: emitter.clone() };
            r.push(p);
        }
        r
    }
}

/// An example emitter: it carries its own process-unique identifier beside
/// its event queue.
#[derive(Debug)]
pub struct Bar {
    pub uuid: u128,
    pub events: Events,
}

impl Bar {
    pub fn new() -> (r: Bar)
        ensures
            r.events@ == Seq::<EventView>::empty(),
    {
        Bar { uuid: fresh_uuid(), events: Events::new() }
    }
}

/// Law: registering an emitter makes its identifier resolvable, to exactly
/// that emitter and no other; every other identifier resolves as before.
pub proof fn lemma_register_resolves<T>(m: Map<u128, Rc<T>>, id: u128, emitter: Rc<T>)
    ensures
        m.insert(id, emitter).contains_key(id),
        m.insert(id, emitter)[id] == emitter,
        forall|other: u128|
            other != id ==> (#[trigger] m.insert(id, emitter).contains_key(other)
                <==> m.contains_key(other)),
        forall|other: u128|
            other != id && m.contains_key(other) ==> #[trigger] m.insert(id, emitter)[other]
                == m[other],
{
}

/// Law: removing an identifier makes it unresolvable, while every other
/// identifier keeps resolving exactly as before.
pub proof fn lemma_remove_not_found<T>(m: Map<u128, Rc<T>>, id: u128, other: u128)
    ensures
        !m.remove(id).contains_key(id),
        other != id ==> (m.remove(id).contains_key(other) <==> m.contains_key(other)),
        other != id && m.contains_key(other) ==> m.remove(id)[other] == m[other],
{
}

} // verus!
