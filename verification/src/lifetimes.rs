//! Borrowing a struct field: a reference into an owned field, with the
//! borrow's content pinned by the contract.

use vstd::prelude::*;

verus! {

pub struct Animal {
    pub name: String,
}

impl Animal {
    /// Borrow the owned `name` field; the borrow sees exactly its content.
    pub fn borrow_name(&self) -> (r: &String)
        ensures
            r@ == self.name@,
    {
        &self.name
    }
}

} // verus!
