//! Names: decentralized identifiers, entities and attributes.

use crate::plain::Plain;
use vstd::prelude::*;

verus! {

/// A decentralized identifier, such as the one of a space or of a profile.
#[derive(Clone, Debug, PartialEq, Eq, PartialOrd, Ord, Hash)]
pub struct Did(pub String);

/// What facts are about, named by a URI.
#[derive(Clone, Debug, PartialEq, Eq, PartialOrd, Ord, Hash)]
pub struct Entity(pub String);

/// What a fact says of an entity, in the form `domain/name`.
#[derive(Clone, Debug, PartialEq, Eq, PartialOrd, Ord, Hash)]
pub struct Attribute(pub String);

impl View for Did {
    type V = Seq<char>;

    open spec fn view(&self) -> Seq<char> {
        self.0@
    }
}

impl View for Entity {
    type V = Seq<char>;

    open spec fn view(&self) -> Seq<char> {
        self.0@
    }
}

impl View for Attribute {
    type V = Seq<char>;

    open spec fn view(&self) -> Seq<char> {
        self.0@
    }
}

impl Plain for Did {
    fn copy(&self) -> (result: Self) {
        Did(self.0.clone())
    }

    fn same(&self, other: &Self) -> (result: bool) {
        self.0 == other.0
    }
}

impl Plain for Entity {
    fn copy(&self) -> (result: Self) {
        Entity(self.0.clone())
    }

    fn same(&self, other: &Self) -> (result: bool) {
        self.0 == other.0
    }
}

impl Plain for Attribute {
    fn copy(&self) -> (result: Self) {
        Attribute(self.0.clone())
    }

    fn same(&self, other: &Self) -> (result: bool) {
        self.0 == other.0
    }
}

impl Did {
    /// The identifier that reads `did`.
    pub fn new(did: &str) -> (result: Did)
        ensures
            result@ == did@,
    {
        Did(did.to_owned())
    }
}

impl Entity {
    /// The entity that `uri` names.
    pub fn new(uri: &str) -> (result: Entity)
        ensures
            result@ == uri@,
    {
        Entity(uri.to_owned())
    }
}

impl Attribute {
    /// The attribute that reads `name`.
    pub fn new(name: &str) -> (result: Attribute)
        ensures
            result@ == name@,
    {
        Attribute(name.to_owned())
    }
}

} // verus!
