//! Related objects mutating each other, without shared mutable aliasing.
//!
//! Where related objects keep references to one another, the link is held
//! here as a stable index into an arena (a vector of objects), and every
//! "mutate object B while reading object A" becomes an index-based lookup.

use vstd::prelude::*;

verus! {

/// How much an attack of the given strength takes from a target with the
/// given armor: armor absorbs up to its own value, never below zero.
pub open spec fn damage(strength: u8, armor: u8) -> int {
    if strength > armor {
        strength - armor
    } else {
        0
    }
}

/// Several strategies for letting related objects reach each other: two
/// plain fields (borrowable independently), a vector of unrelated people,
/// and an arena of people linked to each other by index.
pub struct World {
    pub friend: Person,
    pub enemy: Person,
    pub frenemies: Vec<Person>,
    pub siblings: Vec<Person>,
}

#[derive(Clone, Copy)]
pub struct Person {
    health: u8,
    armor: u8,
    strength: u8,
    sibling: Option<usize>,
}

impl Person {
    pub closed spec fn spec_health(self) -> u8 {
        self.health
    }

    pub closed spec fn spec_armor(self) -> u8 {
        self.armor
    }

    pub closed spec fn spec_strength(self) -> u8 {
        self.strength
    }

    pub closed spec fn spec_sibling(self) -> Option<usize> {
        self.sibling
    }

    /// Whether `after` is exactly `before` struck by an attack of the given
    /// strength: health is down by the damage, everything else untouched.
    pub open spec fn struck(before: Person, strength: u8, after: Person) -> bool {
        &&& after.spec_health() == before.spec_health() - damage(strength, before.spec_armor())
        &&& after.spec_armor() == before.spec_armor()
        &&& after.spec_strength() == before.spec_strength()
        &&& after.spec_sibling() == before.spec_sibling()
    }

    pub fn attack(&self, other: &mut Person)
        requires
            damage(self.spec_strength(), old(other).spec_armor()) <= old(other).spec_health(),
        ensures
            Person::struck(*old(other), self.spec_strength(), *final(other)),
    {
        other.receive_attack(self.strength);
    }

    /// Attack the person this one is linked to in the `others` arena, or
    /// report `Err` when no link is set.
    pub fn attack_sibling(&self, others: &mut Vec<Person>) -> (r: Result<(), ()>)
        requires
            match self.spec_sibling() {
                Some(i) => i < old(others)@.len() && damage(
                    self.spec_strength(),
                    old(others)@[i as int].spec_armor(),
                ) <= old(others)@[i as int].spec_health(),
                None => true,
            },
        ensures
            r is Ok <==> self.spec_sibling() is Some,
            match self.spec_sibling() {
                Some(i) => {
                    &&& final(others)@.len() == old(others)@.len()
                    &&& forall|j: int|
                        0 <= j < old(others)@.len() && j != i ==> final(others)@[j] == old(
                            others,
                        )@[j]
                    &&& Person::struck(
                        old(others)@[i as int],
                        self.spec_strength(),
                        final(others)@[i as int],
                    )
                },
                None => final(others)@ == old(others)@,
            },
    {
        match self.sibling {
            Some(i) => {
                self.attack(&mut others[i]);
                Ok(())
            },
            None => Err(()),
        }
    }

    pub fn health(&self) -> (r: u8)
        ensures
            r == self.spec_health(),
    {
        self.health
    }

    pub fn new(armor: u8, strength: u8) -> (r: Person)
        ensures
            r.spec_health() == 10,
            r.spec_armor() == armor,
            r.spec_strength() == strength,
            r.spec_sibling() is None,
    {
        Person { health: 10, armor, strength, sibling: None }
    }

    pub fn receive_attack(&mut self, strength: u8)
        requires
            damage(strength, old(self).spec_armor()) <= old(self).spec_health(),
        ensures
            Person::struck(*old(self), strength, *final(self)),
    {
        let dmg: u8 = if strength > self.armor {
            strength - self.armor
        } else {
            0
        };
        self.health = self.health - dmg;
    }

    /// Link this person to the one standing at `sibling` in an arena.
    pub fn set_sibling(&mut self, sibling: usize)
        ensures
            final(self).spec_sibling() == Some(sibling),
            final(self).spec_health() == old(self).spec_health(),
            final(self).spec_armor() == old(self).spec_armor(),
            final(self).spec_strength() == old(self).spec_strength(),
    {
        self.sibling = Some(sibling);
    }
}

} // verus!
