//! Attributes of an origin.

use crate::identity::{Attribute, Entity};
use vstd::prelude::*;

verus! {

/// `dialog.origin/subject`: the repository that the origin views.
#[derive(Clone, Debug, PartialEq, Eq, PartialOrd, Ord)]
pub struct Subject(
    /// The repository subject entity.
    pub Entity,
);

impl Subject {
    /// The attribute's name.
    pub fn the() -> (result: Attribute)
        ensures
            result@ == "dialog.origin/subject"@,
    {
        Attribute::new("dialog.origin/subject")
    }
}

impl View for Subject {
    type V = Seq<char>;

    open spec fn view(&self) -> Seq<char> {
        self.0@
    }
}

/// `dialog.origin/profile`: the profile that owns the origin.
#[derive(Clone, Debug, PartialEq, Eq, PartialOrd, Ord)]
pub struct Profile(
    /// The profile entity.
    pub Entity,
);

impl Profile {
    /// The attribute's name.
    pub fn the() -> (result: Attribute)
        ensures
            result@ == "dialog.origin/profile"@,
    {
        Attribute::new("dialog.origin/profile")
    }
}

impl View for Profile {
    type V = Seq<char>;

    open spec fn view(&self) -> Seq<char> {
        self.0@
    }
}

} // verus!
