//! Small, isolated demonstrations of language-level mechanics, each carried
//! by a verified contract: recovering a concrete type from a value stored
//! behind one closed polymorphic type, an event queue with bulk drain and
//! deferred dispatch, borrowing a struct field, and index-based shared
//! mutation between related objects.

pub mod any;
pub mod events;
pub mod lifetimes;
pub mod mutability;
