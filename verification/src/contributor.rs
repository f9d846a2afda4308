//! A contributor: a named person with a seniority rating.

use vstd::prelude::*;

verus! {

pub struct Contributor {
    pub name: String,
    pub seniority: usize,
}

impl Contributor {
    /// Whether the contributor's fields are within the accepted ranges: a
    /// non-empty name and a seniority between 1 and 5.
    pub open spec fn spec_valid(self) -> bool {
        self.name@.len() > 0 && 1 <= self.seniority <= 5
    }

    pub fn new(name: String, seniority: usize) -> (r: Contributor)
        ensures
            r.name == name,
            r.seniority == seniority,
    {
        Contributor { name, seniority }
    }

    /// Checks the field ranges that a well-formed contributor record must
    /// meet.
    pub fn is_valid(&self) -> (r: bool)
        ensures
            r <==> self.spec_valid(),
    {
        self.name.as_str().unicode_len() > 0 && 1 <= self.seniority && self.seniority <= 5
    }

    /// A copy equal to `self`.
    pub fn duplicate(&self) -> (r: Contributor)
        ensures
            r == *self,
    {
        Contributor { name: self.name.clone(), seniority: self.seniority }
    }
}

} // verus!
