//! Facts, and the changes that assert, replace or retract them.

use crate::bytes::{lemma_lex_irreflexive, lemma_lex_total, lemma_lex_transitive, lex_less, lex_lt};
use crate::identity::{Attribute, Entity};
use crate::plain::{copy_opt, same_opt, opt_view, Plain};
use vstd::prelude::*;

verus! {

/// What a fact says of its entity under its attribute.
#[derive(Clone, Debug, PartialEq, Eq, Hash)]
pub enum Value {
    /// Raw bytes.
    Bytes(Vec<u8>),
    /// A reference to another entity.
    Entity(Entity),
    /// A truth value.
    Boolean(bool),
    /// A text.
    String(String),
    /// An unsigned integer.
    UnsignedInt(u128),
    /// A signed integer.
    SignedInt(i128),
    /// A floating point number, by its bits.
    Float(u64),
    /// Structured data in encoded form.
    Record(Vec<u8>),
    /// The name of an attribute.
    Symbol(Attribute),
}

/// What a [`Value`] holds.
#[verifier::ext_equal]
pub enum ValueView {
    Bytes(Seq<u8>),
    Entity(Seq<char>),
    Boolean(bool),
    String(Seq<char>),
    UnsignedInt(u128),
    SignedInt(i128),
    Float(u64),
    Record(Seq<u8>),
    Symbol(Seq<char>),
}

impl View for Value {
    type V = ValueView;

    open spec fn view(&self) -> ValueView {
        match self {
            Value::Bytes(bytes) => ValueView::Bytes(bytes@),
            Value::Entity(entity) => ValueView::Entity(entity@),
            Value::Boolean(boolean) => ValueView::Boolean(*boolean),
            Value::String(string) => ValueView::String(string@),
            Value::UnsignedInt(number) => ValueView::UnsignedInt(*number),
            Value::SignedInt(number) => ValueView::SignedInt(*number),
            Value::Float(bits) => ValueView::Float(*bits),
            Value::Record(bytes) => ValueView::Record(bytes@),
            Value::Symbol(attribute) => ValueView::Symbol(attribute@),
        }
    }
}

impl Plain for Value {
    fn copy(&self) -> (result: Self) {
        match self {
            Value::Bytes(bytes) => Value::Bytes(bytes.copy()),
            Value::Entity(entity) => Value::Entity(entity.copy()),
            Value::Boolean(boolean) => Value::Boolean(*boolean),
            Value::String(string) => Value::String(string.clone()),
            Value::UnsignedInt(number) => Value::UnsignedInt(*number),
            Value::SignedInt(number) => Value::SignedInt(*number),
            Value::Float(bits) => Value::Float(*bits),
            Value::Record(bytes) => Value::Record(bytes.copy()),
            Value::Symbol(attribute) => Value::Symbol(attribute.copy()),
        }
    }

    fn same(&self, other: &Self) -> (result: bool) {
        match (self, other) {
            (Value::Bytes(a), Value::Bytes(b)) => a.same(b),
            (Value::Entity(a), Value::Entity(b)) => a.same(b),
            (Value::Boolean(a), Value::Boolean(b)) => *a == *b,
            (Value::String(a), Value::String(b)) => a.same(b),
            (Value::UnsignedInt(a), Value::UnsignedInt(b)) => *a == *b,
            (Value::SignedInt(a), Value::SignedInt(b)) => *a == *b,
            (Value::Float(a), Value::Float(b)) => *a == *b,
            (Value::Record(a), Value::Record(b)) => a.same(b),
            (Value::Symbol(a), Value::Symbol(b)) => a.same(b),
            _ => false,
        }
    }
}

/// The hash of the fact that a fact supersedes.
#[derive(Clone, Debug, PartialEq, Eq, Hash)]
pub struct Cause(pub Vec<u8>);

impl View for Cause {
    type V = Seq<u8>;

    open spec fn view(&self) -> Seq<u8> {
        self.0@
    }
}

impl Plain for Cause {
    fn copy(&self) -> (result: Self) {
        Cause(self.0.copy())
    }

    fn same(&self, other: &Self) -> (result: bool) {
        self.0.same(&other.0)
    }
}

/// A fact: `of` has the value `is` under the attribute `the`.
#[derive(Clone, Debug, PartialEq, Eq, Hash)]
pub struct Artifact {
    /// The attribute.
    pub the: Attribute,
    /// The entity.
    pub of: Entity,
    /// The value.
    pub is: Value,
    /// The fact that this one supersedes, if any.
    pub cause: Option<Cause>,
}

/// What an [`Artifact`] holds.
#[verifier::ext_equal]
pub struct ArtifactView {
    pub the: Seq<char>,
    pub of: Seq<char>,
    pub is: ValueView,
    pub cause: Option<Seq<u8>>,
}

impl View for Artifact {
    type V = ArtifactView;

    open spec fn view(&self) -> ArtifactView {
        ArtifactView {
            the: self.the@,
            of: self.of@,
            is: self.is@,
            cause: opt_view(self.cause),
        }
    }
}

impl Plain for Artifact {
    fn copy(&self) -> (result: Self) {
        Artifact {
            the: self.the.copy(),
            of: self.of.copy(),
            is: self.is.copy(),
            cause: copy_opt(&self.cause),
        }
    }

    fn same(&self, other: &Self) -> (result: bool) {
        self.the.same(&other.the) && self.of.same(&other.of) && self.is.same(&other.is)
            && same_opt(&self.cause, &other.cause)
    }
}

/// The bytes that an index orders a fact by: those of its attribute, of its
/// entity and of its value, in this order of weight.
#[derive(Clone, Debug, PartialEq, Eq, Hash)]
pub struct SortKey(pub Vec<u8>, pub Vec<u8>, pub Vec<u8>);

/// What a [`SortKey`] holds.
pub type SortKeyView = (Seq<u8>, Seq<u8>, Seq<u8>);

impl View for SortKey {
    type V = SortKeyView;

    open spec fn view(&self) -> SortKeyView {
        (self.0@, self.1@, self.2@)
    }
}

impl Plain for SortKey {
    fn copy(&self) -> (result: Self) {
        SortKey(self.0.copy(), self.1.copy(), self.2.copy())
    }

    fn same(&self, other: &Self) -> (result: bool) {
        self.0.same(&other.0) && self.1.same(&other.1) && self.2.same(&other.2)
    }
}

/// Whether a fact with the key `a` is stored before one with the key `b`.
pub open spec fn key_lt(a: SortKeyView, b: SortKeyView) -> bool {
    ||| lex_lt(a.0, b.0)
    ||| a.0 == b.0 && lex_lt(a.1, b.1)
    ||| a.0 == b.0 && a.1 == b.1 && lex_lt(a.2, b.2)
}

/// Whether a fact with the key `a` is not stored after one with the key `b`.
pub open spec fn key_le(a: SortKeyView, b: SortKeyView) -> bool {
    !key_lt(b, a)
}

/// The order of keys is strict and total.
pub proof fn law_key_order(a: SortKeyView, b: SortKeyView, c: SortKeyView)
    ensures
        !key_lt(a, a),
        key_lt(a, b) && key_lt(b, c) ==> key_lt(a, c),
        key_lt(a, b) || key_lt(b, a) || a == b,
        key_le(a, b) && key_le(b, c) ==> key_le(a, c),
{
    lemma_lex_irreflexive(a.0);
    lemma_lex_irreflexive(a.1);
    lemma_lex_irreflexive(a.2);
    lemma_lex_total(a.0, b.0);
    lemma_lex_total(a.1, b.1);
    lemma_lex_total(a.2, b.2);
    lemma_key_transitive(a, b, c);
    if key_le(a, b) && key_le(b, c) && key_lt(c, a) {
        lemma_lex_total(b.0, c.0);
        lemma_lex_total(b.1, c.1);
        lemma_lex_total(b.2, c.2);
        lemma_key_transitive(b, c, a);
        lemma_key_transitive(c, a, b);
    }
}

proof fn lemma_key_transitive(a: SortKeyView, b: SortKeyView, c: SortKeyView)
    ensures
        key_lt(a, b) && key_lt(b, c) ==> key_lt(a, c),
{
    if lex_lt(a.0, b.0) && lex_lt(b.0, c.0) {
        lemma_lex_transitive(a.0, b.0, c.0);
    }
    if lex_lt(a.1, b.1) && lex_lt(b.1, c.1) {
        lemma_lex_transitive(a.1, b.1, c.1);
    }
    if lex_lt(a.2, b.2) && lex_lt(b.2, c.2) {
        lemma_lex_transitive(a.2, b.2, c.2);
    }
}

impl SortKey {
    /// Whether a fact with this key is stored before one with the key `other`.
    pub fn less(&self, other: &SortKey) -> (result: bool)
        ensures
            result == key_lt(self@, other@),
    {
        if !self.0.same(&other.0) {
            lex_less(self.0.as_slice(), other.0.as_slice())
        } else {
            proof {
                lemma_lex_irreflexive(self.0@);
                lemma_lex_irreflexive(self.1@);
            }
            if !self.1.same(&other.1) {
                lex_less(self.1.as_slice(), other.1.as_slice())
            } else {
                lex_less(self.2.as_slice(), other.2.as_slice())
            }
        }
    }
}

/// A fact with the key that an index orders it by.
#[derive(Clone, Debug, PartialEq, Eq, Hash)]
pub struct Claim {
    /// The key.
    pub key: SortKey,
    /// The fact.
    pub artifact: Artifact,
}

/// What a [`Claim`] holds.
#[verifier::ext_equal]
pub struct ClaimView {
    pub key: SortKeyView,
    pub artifact: ArtifactView,
}

impl ClaimView {
    /// What facts about one attribute of one entity have in common.
    pub open spec fn group(self) -> (Seq<u8>, Seq<u8>) {
        (self.key.0, self.key.1)
    }
}

impl View for Claim {
    type V = ClaimView;

    open spec fn view(&self) -> ClaimView {
        ClaimView { key: self.key@, artifact: self.artifact@ }
    }
}

impl Plain for Claim {
    fn copy(&self) -> (result: Self) {
        Claim { key: self.key.copy(), artifact: self.artifact.copy() }
    }

    fn same(&self, other: &Self) -> (result: bool) {
        self.key.same(&other.key) && self.artifact.same(&other.artifact)
    }
}

/// Keys sort by the attribute, then by the entity, and then by the value.
pub proof fn law_keys_sort_by_parts(a: SortKeyView, b: SortKeyView)
    ensures
        a.0 != b.0 ==> (key_lt(a, b) <==> lex_lt(a.0, b.0)),
        a.0 == b.0 && a.1 != b.1 ==> (key_lt(a, b) <==> lex_lt(a.1, b.1)),
        a.0 == b.0 && a.1 == b.1 ==> (key_lt(a, b) <==> lex_lt(a.2, b.2)),
        key_le(a, b) <==> key_lt(a, b) || a == b,
{
    lemma_lex_irreflexive(a.0);
    lemma_lex_irreflexive(a.1);
    law_key_order(a, b, a);
    law_key_order(b, a, b);
}

/// Claims are of one group just where their keys agree on attribute and entity.
pub proof fn law_groups(a: ClaimView, b: ClaimView)
    ensures
        a.group() == b.group() <==> a.key.0 == b.key.0 && a.key.1 == b.key.1,
{
}

} // verus!
