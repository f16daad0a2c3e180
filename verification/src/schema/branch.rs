//! Attributes of a branch and of its current revision.

use crate::identity::{Attribute, Entity};
use vstd::prelude::*;

verus! {

/// `dialog.branch/name`: the human-readable branch name.
#[derive(Clone, Debug, PartialEq, Eq, PartialOrd, Ord)]
pub struct Name(
    /// The branch name.
    pub String,
);

impl Name {
    /// The attribute's name.
    pub fn the() -> (result: Attribute)
        ensures
            result@ == "dialog.branch/name"@,
    {
        Attribute::new("dialog.branch/name")
    }
}

impl View for Name {
    type V = Seq<char>;

    open spec fn view(&self) -> Seq<char> {
        self.0@
    }
}

/// `dialog.branch/origin`: the origin that the branch lives on.
#[derive(Clone, Debug, PartialEq, Eq, PartialOrd, Ord)]
pub struct Origin(
    /// The origin entity.
    pub Entity,
);

impl Origin {
    /// The attribute's name.
    pub fn the() -> (result: Attribute)
        ensures
            result@ == "dialog.branch/origin"@,
    {
        Attribute::new("dialog.branch/origin")
    }
}

impl View for Origin {
    type V = Seq<char>;

    open spec fn view(&self) -> Seq<char> {
        self.0@
    }
}

/// `dialog.branch/tree`: the tree of the current revision.
#[derive(Clone, Debug, PartialEq, Eq, PartialOrd, Ord)]
pub struct Tree(
    /// Base58-encoded hash of the tree root.
    pub String,
);

impl Tree {
    /// The attribute's name.
    pub fn the() -> (result: Attribute)
        ensures
            result@ == "dialog.branch/tree"@,
    {
        Attribute::new("dialog.branch/tree")
    }
}

impl View for Tree {
    type V = Seq<char>;

    open spec fn view(&self) -> Seq<char> {
        self.0@
    }
}

/// `dialog.branch/edition`: the causal depth of the current revision.
#[derive(Clone, Debug, PartialEq, Eq, PartialOrd, Ord)]
pub struct Edition(
    /// Edition of the revision's logical clock.
    pub u128,
);

impl Edition {
    /// The attribute's name.
    pub fn the() -> (result: Attribute)
        ensures
            result@ == "dialog.branch/edition"@,
    {
        Attribute::new("dialog.branch/edition")
    }
}

impl View for Edition {
    type V = u128;

    open spec fn view(&self) -> u128 {
        self.0
    }
}

/// `dialog.branch/revision`: the entity of the current revision.
#[derive(Clone, Debug, PartialEq, Eq, PartialOrd, Ord)]
pub struct Revision(
    /// The revision entity.
    pub Entity,
);

impl Revision {
    /// The attribute's name.
    pub fn the() -> (result: Attribute)
        ensures
            result@ == "dialog.branch/revision"@,
    {
        Attribute::new("dialog.branch/revision")
    }
}

impl View for Revision {
    type V = Seq<char>;

    open spec fn view(&self) -> Seq<char> {
        self.0@
    }
}

} // verus!
