//! Flat character-sheet data: a named sheet owned by a chat user, with a
//! current and a base fate-point count. Storage and transport of sheets
//! live outside this crate; only the data and its small mutators are here.

use vstd::prelude::*;
use crate::chat::User;
use crate::text::{spec_trim, trim_str};

pub mod skills;

verus! {

/// A character sheet: its display name, the user that owns it, and the
/// fate points as (current, base).
#[derive(Debug)]
pub struct Sheet {
    name: String,
    owner: User,
    fatepoints: (i32, u8),
}

impl Sheet {
    pub closed spec fn spec_name(&self) -> Seq<char> {
        self.name@
    }

    pub closed spec fn spec_owner(&self) -> Seq<char> {
        self.owner@
    }

    pub closed spec fn spec_fatepoints(&self) -> (i32, u8) {
        self.fatepoints
    }

    /// Assembles a sheet from its parts, stored as given.
    pub fn new(name: &str, owner: User, fatepoints: (i32, u8)) -> (s: Sheet)
        ensures
            s.spec_name() == name@,
            s.spec_owner() == owner@,
            s.spec_fatepoints() == fatepoints,
    {
        Sheet { name: name.to_owned(), owner, fatepoints }
    }

    /// Renames the sheet to the trimmed name; chainable.
    pub fn set_name(&mut self, name: &str) -> (r: &mut Self)
        ensures
            (*r).spec_name() == spec_trim(name@),
            (*r).spec_owner() == old(self).spec_owner(),
            (*r).spec_fatepoints() == old(self).spec_fatepoints(),
            *final(self) == *final(r),
    {
        self.name = trim_str(name);
        self
    }

    /// Adds to the current fate points; chainable.
    pub fn add_fatepoints(&mut self, n: i32) -> (r: &mut Self)
        requires
            i32::MIN <= old(self).spec_fatepoints().0 + n <= i32::MAX,
        ensures
            (*r).spec_fatepoints().0 == old(self).spec_fatepoints().0 + n,
            (*r).spec_fatepoints().1 == old(self).spec_fatepoints().1,
            (*r).spec_name() == old(self).spec_name(),
            (*r).spec_owner() == old(self).spec_owner(),
            *final(self) == *final(r),
    {
        self.fatepoints.0 = self.fatepoints.0 + n;
        self
    }

    /// Sets the current fate points; chainable.
    pub fn set_fatepoints(&mut self, n: i32) -> (r: &mut Self)
        ensures
            (*r).spec_fatepoints().0 == n,
            (*r).spec_fatepoints().1 == old(self).spec_fatepoints().1,
            (*r).spec_name() == old(self).spec_name(),
            (*r).spec_owner() == old(self).spec_owner(),
            *final(self) == *final(r),
    {
        self.fatepoints.0 = n;
        self
    }

    /// Resets the current fate points to the base count; chainable.
    pub fn reset_fatepoint(&mut self) -> (r: &mut Self)
        ensures
            (*r).spec_fatepoints().0 == old(self).spec_fatepoints().1 as i32,
            (*r).spec_fatepoints().1 == old(self).spec_fatepoints().1,
            (*r).spec_name() == old(self).spec_name(),
            (*r).spec_owner() == old(self).spec_owner(),
            *final(self) == *final(r),
    {
        self.fatepoints.0 = self.fatepoints.1 as i32;
        self
    }

    pub fn get_name(&self) -> (r: &str)
        ensures
            r@ == self.spec_name(),
    {
        self.name.as_str()
    }

    pub fn get_owner(&self) -> (r: &User)
        ensures
            r@ == self.spec_owner(),
    {
        &self.owner
    }

    pub fn get_fatepoints(&self) -> (r: (i32, u8))
        ensures
            r == self.spec_fatepoints(),
    {
        self.fatepoints
    }

    /// Whether the sheet carries a non-empty owner identifier, the one
    /// thing storage requires of it.
    pub fn owner_is_valid(&self) -> (b: bool)
        ensures
            b == (self.spec_owner().len() > 0),
    {
        !self.owner.get_username().is_empty()
    }
}

} // verus!
