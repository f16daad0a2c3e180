//! Attributes of a query session.

use crate::identity::{Attribute, Entity};
use vstd::prelude::*;

verus! {

/// `dialog.session/profile`: the profile of the session.
#[derive(Clone, Debug, PartialEq, Eq, PartialOrd, Ord)]
pub struct Profile(
    /// The profile entity.
    pub Entity,
);

impl Profile {
    /// The attribute's name.
    pub fn the() -> (result: Attribute)
        ensures
            result@ == "dialog.session/profile"@,
    {
        Attribute::new("dialog.session/profile")
    }
}

impl View for Profile {
    type V = Seq<char>;

    open spec fn view(&self) -> Seq<char> {
        self.0@
    }
}

/// `dialog.session/operator`: the operator of the session.
#[derive(Clone, Debug, PartialEq, Eq, PartialOrd, Ord)]
pub struct Operator(
    /// The operator entity.
    pub Entity,
);

impl Operator {
    /// The attribute's name.
    pub fn the() -> (result: Attribute)
        ensures
            result@ == "dialog.session/operator"@,
    {
        Attribute::new("dialog.session/operator")
    }
}

impl View for Operator {
    type V = Seq<char>;

    open spec fn view(&self) -> Seq<char> {
        self.0@
    }
}

/// `dialog.session/branch`: a branch in the scope of the session; there may be many.
#[derive(Clone, Debug, PartialEq, Eq, PartialOrd, Ord)]
pub struct Branch(
    /// The branch entity.
    pub Entity,
);

impl Branch {
    /// The attribute's name.
    pub fn the() -> (result: Attribute)
        ensures
            result@ == "dialog.session/branch"@,
    {
        Attribute::new("dialog.session/branch")
    }
}

impl View for Branch {
    type V = Seq<char>;

    open spec fn view(&self) -> Seq<char> {
        self.0@
    }
}

} // verus!
