//! Attributes of a revision, which are derived from its record and never stored.

use crate::identity::{Attribute, Entity};
use vstd::prelude::*;

verus! {

/// `dialog.revision/lineage`: the branch lineage that the revision was minted on.
#[derive(Clone, Debug, PartialEq, Eq, PartialOrd, Ord)]
pub struct Lineage(
    /// The lineage entity.
    pub Entity,
);

impl Lineage {
    /// The attribute's name.
    pub fn the() -> (result: Attribute)
        ensures
            result@ == "dialog.revision/lineage"@,
    {
        Attribute::new("dialog.revision/lineage")
    }
}

impl View for Lineage {
    type V = Seq<char>;

    open spec fn view(&self) -> Seq<char> {
        self.0@
    }
}

/// `dialog.revision/issuer`: the operator that minted the revision.
#[derive(Clone, Debug, PartialEq, Eq, PartialOrd, Ord)]
pub struct Issuer(
    /// The issuer entity.
    pub Entity,
);

impl Issuer {
    /// The attribute's name.
    pub fn the() -> (result: Attribute)
        ensures
            result@ == "dialog.revision/issuer"@,
    {
        Attribute::new("dialog.revision/issuer")
    }
}

impl View for Issuer {
    type V = Seq<char>;

    open spec fn view(&self) -> Seq<char> {
        self.0@
    }
}

/// `dialog.revision/authority`: the profile that authorized the revision.
#[derive(Clone, Debug, PartialEq, Eq, PartialOrd, Ord)]
pub struct Authority(
    /// The authority entity.
    pub Entity,
);

impl Authority {
    /// The attribute's name.
    pub fn the() -> (result: Attribute)
        ensures
            result@ == "dialog.revision/authority"@,
    {
        Attribute::new("dialog.revision/authority")
    }
}

impl View for Authority {
    type V = Seq<char>;

    open spec fn view(&self) -> Seq<char> {
        self.0@
    }
}

/// `dialog.revision/edition`: the causal depth of the revision.
#[derive(Clone, Debug, PartialEq, Eq, PartialOrd, Ord)]
pub struct Edition(
    /// The edition.
    pub u64,
);

impl Edition {
    /// The attribute's name.
    pub fn the() -> (result: Attribute)
        ensures
            result@ == "dialog.revision/edition"@,
    {
        Attribute::new("dialog.revision/edition")
    }
}

impl View for Edition {
    type V = u64;

    open spec fn view(&self) -> u64 {
        self.0
    }
}

/// `dialog.revision/parent`: a parent of the revision; a merge has two.
#[derive(Clone, Debug, PartialEq, Eq, PartialOrd, Ord)]
pub struct Parent(
    /// A parent revision's entity.
    pub Entity,
);

impl Parent {
    /// The attribute's name.
    pub fn the() -> (result: Attribute)
        ensures
            result@ == "dialog.revision/parent"@,
    {
        Attribute::new("dialog.revision/parent")
    }
}

impl View for Parent {
    type V = Seq<char>;

    open spec fn view(&self) -> Seq<char> {
        self.0@
    }
}

} // verus!
