//! Heterogeneous event values and the queue an emitter owns.
//!
//! A concrete event kind is erased behind the closed [`Event`] type so that
//! one queue can hold a mixture of kinds; the concrete kind is recovered
//! later by an exact, total runtime check ([`Event::downcast`]).

use vstd::prelude::*;

pub mod pointer;
pub mod uuid;

verus! {

/// An event value seen abstractly: one case per concrete kind, carrying
/// that kind's data.
pub enum EventView {
    Foo(Seq<char>),
    Bar,
}

/// A heterogeneous event value: any concrete event kind, stored behind one
/// closed type. Its view tells which kind it is and what data it carries.
#[derive(Debug)]
pub enum Event {
    Foo(FooEvent),
    Bar(crate::any::Bar),
}

impl View for Event {
    type V = EventView;

    open spec fn view(&self) -> EventView {
        match self {
            Event::Foo(f) => EventView::Foo(f@),
            Event::Bar(_) => EventView::Bar,
        }
    }
}

/// The capability a concrete event kind offers: erasing a value into an
/// [`Event`] and recovering it again by an exact runtime check. The check
/// is total: a mismatch is an ordinary `None`, never a fault.
pub trait EventKind: View + Sized {
    /// The view an erased event of this kind has when it carries `data`.
    spec fn view_of(data: Self::V) -> EventView;

    /// Whether an erased event's view is of this kind.
    spec fn is_kind(v: EventView) -> bool;

    /// An event erased from this kind's data is of this kind.
    proof fn kind_of_view(data: Self::V)
        ensures
            Self::is_kind(Self::view_of(data)),
    ;

    /// Erase a concrete event into the closed event type.
    fn wrap(self) -> (e: Event)
        ensures
            e@ == Self::view_of(self@),
    ;

    /// Recover the concrete event, exactly when the erased event is of
    /// this kind.
    fn try_ref(e: &Event) -> (r: Option<&Self>)
        ensures
            r is Some <==> Self::is_kind(e@),
            r matches Some(d) ==> e@ == Self::view_of(d@),
    ;
}

impl Event {
    /// Runtime type recovery: view this opaque event as concrete kind `U`.
    /// Returns the typed reference exactly when the event's kind is `U`.
    pub fn downcast<U: EventKind>(&self) -> (r: Option<&U>)
        ensures
            r is Some <==> U::is_kind(self@),
            r matches Some(d) ==> self@ == U::view_of(d@),
    {
        U::try_ref(self)
    }
}

/// A concrete event kind: a message carrying some text.
#[derive(Debug)]
pub struct FooEvent {
    pub message: String,
}

impl View for FooEvent {
    type V = Seq<char>;

    open spec fn view(&self) -> Seq<char> {
        self.message@
    }
}

impl FooEvent {
    pub fn new(message: &str) -> (r: FooEvent)
        ensures
            r@ == message@,
    {
        FooEvent { message: message.to_owned() }
    }
}

impl EventKind for FooEvent {
    open spec fn view_of(data: Seq<char>) -> EventView {
        EventView::Foo(data)
    }

    open spec fn is_kind(v: EventView) -> bool {
        v is Foo
    }

    proof fn kind_of_view(data: Seq<char>) {
    }

    fn wrap(self) -> Event {
        Event::Foo(self)
    }

    fn try_ref(e: &Event) -> Option<&FooEvent> {
        match e {
            Event::Foo(f) => Some(f),
            _ => None,
        }
    }
}

/// The views of a sequence of events, in order.
pub open spec fn views_of(s: Seq<Event>) -> Seq<EventView> {
    s.map(|i: int, e: Event| e@)
}

/// An ordered queue of heterogeneous events. Insertion order is preserved;
/// a drain removes and returns everything at once, leaving it empty.
#[derive(Debug)]
pub struct Events {
    queue: Vec<Event>,
}

impl View for Events {
    type V = Seq<EventView>;

    closed spec fn view(&self) -> Seq<EventView> {
        views_of(self.queue@)
    }
}

impl Events {
    pub fn new() -> (r: Events)
        ensures
            r@ == Seq::<EventView>::empty(),
    {
        let r = Events { queue: Vec::new() };
        proof {
            assert(r@ =~= Seq::<EventView>::empty());
        }
        r
    }

    /// Append one event of any concrete kind; the order of calls is kept.
    pub fn emit<U: EventKind>(&mut self, event: U)
        ensures
            final(self)@ == old(self)@.push(U::view_of(event@)),
    {
        let ghost v = U::view_of(event@);
        let e = event.wrap();
        self.queue.push(e);
        proof {
            assert(self@ =~= old(self)@.push(v));
        }
    }

    /// Remove and return all queued events in insertion order; the queue is
    /// empty afterward. Safe on an empty queue, which yields an empty vector.
    pub fn drain_all(&mut self) -> (r: Vec<Event>)
        ensures
            views_of(r@) == old(self)@,
            final(self)@ == Seq::<EventView>::empty(),
    {
        let mut r: Vec<Event> = Vec::new();
        core::mem::swap(&mut r, &mut self.queue);
        proof {
            assert(self@ =~= Seq::<EventView>::empty());
        }
        r
    }
}

/// An example emitter: an object that owns an event queue.
#[derive(Debug)]
pub struct Bar {
    pub events: Events,
}

/// Law: an erased event has at most one kind, so recovering it at any kind
/// other than its own yields nothing.
pub proof fn lemma_kind_exclusive(v: EventView)
    ensures
        !(FooEvent::is_kind(v) && crate::any::Bar::is_kind(v)),
{
}

} // verus!
