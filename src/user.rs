use vstd::prelude::*;

verus! {

/// Relies on `rand::random`: it draws a value from the thread-local generator.
/// Nothing is promised of the value.
pub assume_specification<T>[ rand::random::<T> ]() -> (r: T)
    where
        rand::distributions::Standard: rand::distributions::Distribution<T>,
;

/// A person who can join a lobby. Two users are the same player exactly
/// when they carry the same identity number; the name is only displayed.
#[derive(Debug)]
pub struct User {
    pub id: u64,
    pub name: String,
}

impl User {
    /// A new user with a fresh random identity, so that two users created
    /// with the same name are still distinct players.
    pub fn new(name: &str) -> (r: User)
        ensures
            r.name@ == name@,
    {
        let id: u64 = rand::random::<u64>();
        User { id, name: name.to_owned() }
    }

    pub fn name(&self) -> (r: &str)
        ensures
            r@ == self.name@,
    {
        self.name.as_str()
    }
}

impl Clone for User {
    fn clone(&self) -> (r: User)
        ensures
            r == *self,
    {
        User { id: self.id, name: self.name.clone() }
    }
}

impl PartialEq for User {
    fn eq(&self, other: &User) -> (r: bool) {
        self.id == other.id
    }
}

impl vstd::std_specs::cmp::PartialEqSpecImpl for User {
    open spec fn obeys_eq_spec() -> bool {
        true
    }

    open spec fn eq_spec(&self, other: &User) -> bool {
        self.id == other.id
    }
}

impl Eq for User {}

} // verus!
