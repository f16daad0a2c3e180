//! Pending changes to a set of facts.

use crate::artifact::{Artifact, ArtifactView, Value, ValueView};
use crate::identity::{Attribute, Entity};
use crate::plain::{copy_all, lemma_views_add, lemma_views_push, views, Plain};
use vstd::prelude::*;

verus! {

/// What happens to one value of one attribute of one entity.
#[derive(Clone, Debug, PartialEq, Eq, Hash)]
pub enum Change {
    /// The value is added beside those that are there.
    Assert(Value),
    /// The value takes the place of all others.
    Replace(Value),
    /// The value is taken away.
    Retract(Value),
}

/// What a [`Change`] holds.
#[verifier::ext_equal]
pub enum ChangeView {
    Assert(ValueView),
    Replace(ValueView),
    Retract(ValueView),
}

impl View for Change {
    type V = ChangeView;

    open spec fn view(&self) -> ChangeView {
        match self {
            Change::Assert(value) => ChangeView::Assert(value@),
            Change::Replace(value) => ChangeView::Replace(value@),
            Change::Retract(value) => ChangeView::Retract(value@),
        }
    }
}

impl Plain for Change {
    fn copy(&self) -> (result: Self) {
        match self {
            Change::Assert(value) => Change::Assert(value.copy()),
            Change::Replace(value) => Change::Replace(value.copy()),
            Change::Retract(value) => Change::Retract(value.copy()),
        }
    }

    fn same(&self, other: &Self) -> (result: bool) {
        match (self, other) {
            (Change::Assert(a), Change::Assert(b)) => a.same(b),
            (Change::Replace(a), Change::Replace(b)) => a.same(b),
            (Change::Retract(a), Change::Retract(b)) => a.same(b),
            _ => false,
        }
    }
}

/// One change with the attribute and the entity that it is about.
#[derive(Clone, Debug, PartialEq, Eq, Hash)]
pub struct Pending {
    /// The entity.
    pub of: Entity,
    /// The attribute.
    pub the: Attribute,
    /// The change.
    pub change: Change,
}

/// What a [`Pending`] holds.
#[verifier::ext_equal]
pub struct PendingView {
    pub of: Seq<char>,
    pub the: Seq<char>,
    pub change: ChangeView,
}

impl View for Pending {
    type V = PendingView;

    open spec fn view(&self) -> PendingView {
        PendingView { of: self.of@, the: self.the@, change: self.change@ }
    }
}

impl Plain for Pending {
    fn copy(&self) -> (result: Self) {
        Pending { of: self.of.copy(), the: self.the.copy(), change: self.change.copy() }
    }

    fn same(&self, other: &Self) -> (result: bool) {
        self.of.same(&other.of) && self.the.same(&other.the) && self.change.same(&other.change)
    }
}

/// Changes in the order in which they were made.
#[derive(Clone, Debug, PartialEq, Eq)]
pub struct Changes {
    /// The changes.
    pub log: Vec<Pending>,
}

impl View for Changes {
    type V = Seq<PendingView>;

    open spec fn view(&self) -> Seq<PendingView> {
        views(self.log@)
    }
}

impl Plain for Changes {
    fn copy(&self) -> (result: Self) {
        Changes { log: copy_all(&self.log) }
    }

    fn same(&self, other: &Self) -> (result: bool) {
        crate::plain::same_all(&self.log, &other.log)
    }
}

/// A change that adds `is` under `the` of `of`.
pub open spec fn asserts(the: Seq<char>, of: Seq<char>, is: ValueView) -> PendingView {
    PendingView { of, the, change: ChangeView::Assert(is) }
}

/// A change that makes `is` the one value under `the` of `of`.
pub open spec fn replaces(the: Seq<char>, of: Seq<char>, is: ValueView) -> PendingView {
    PendingView { of, the, change: ChangeView::Replace(is) }
}

/// A change that takes `is` away from `the` of `of`.
pub open spec fn retracts(the: Seq<char>, of: Seq<char>, is: ValueView) -> PendingView {
    PendingView { of, the, change: ChangeView::Retract(is) }
}

impl Default for Changes {
    fn default() -> (result: Changes)
        ensures
            result@ == Seq::<PendingView>::empty(),
    {
        Changes::new()
    }
}

impl Changes {
    /// No changes.
    pub fn new() -> (result: Changes)
        ensures
            result@ == Seq::<PendingView>::empty(),
    {
        let result = Changes { log: Vec::new() };
        assert(result@ =~= Seq::<PendingView>::empty());
        result
    }

    /// Whether there are no changes.
    pub fn is_empty(&self) -> (result: bool)
        ensures
            result == (self@.len() == 0),
    {
        self.log.len() == 0
    }

    /// Adds a value beside those that are there.
    pub fn associate(&mut self, the: Attribute, of: Entity, is: Value)
        ensures
            final(self)@ == old(self)@.push(asserts(the@, of@, is@)),
    {
        let pending = Pending { of, the, change: Change::Assert(is) };
        proof {
            lemma_views_push(self.log@, pending);
        }
        self.log.push(pending);
    }

    /// Puts a value in the place of all others.
    pub fn associate_unique(&mut self, the: Attribute, of: Entity, is: Value)
        ensures
            final(self)@ == old(self)@.push(replaces(the@, of@, is@)),
    {
        let pending = Pending { of, the, change: Change::Replace(is) };
        proof {
            lemma_views_push(self.log@, pending);
        }
        self.log.push(pending);
    }

    /// Takes a value away.
    pub fn dissociate(&mut self, the: Attribute, of: Entity, is: Value)
        ensures
            final(self)@ == old(self)@.push(retracts(the@, of@, is@)),
    {
        let pending = Pending { of, the, change: Change::Retract(is) };
        proof {
            lemma_views_push(self.log@, pending);
        }
        self.log.push(pending);
    }

    /// Makes the changes of `other` after those that are here.
    pub fn extend(&mut self, other: &Changes)
        ensures
            final(self)@ == old(self)@ + other@,
    {
        let mut more = copy_all(&other.log);
        proof {
            lemma_views_add(self.log@, more@);
        }
        self.log.append(&mut more);
    }
}

/// Something that can be stated as changes.
pub trait Statement: Sized {
    /// The changes that state it.
    spec fn statement(&self) -> Seq<PendingView>;

    /// Adds the changes that state it.
    fn assert_into(&self, changes: &mut Changes)
        ensures
            final(changes)@ == old(changes)@ + self.statement(),
    ;
}

impl Statement for Changes {
    open spec fn statement(&self) -> Seq<PendingView> {
        self@
    }

    fn assert_into(&self, changes: &mut Changes) {
        changes.extend(self);
    }
}

/// A fact to be written, and how.
#[derive(Clone, Debug, PartialEq, Eq, Hash)]
pub enum Instruction {
    /// Add the fact beside its siblings.
    Assert(Artifact),
    /// Put the fact in the place of its siblings.
    Replace(Artifact),
    /// Take the fact away.
    Retract(Artifact),
}

/// What an [`Instruction`] holds.
#[verifier::ext_equal]
pub enum InstructionView {
    Assert(ArtifactView),
    Replace(ArtifactView),
    Retract(ArtifactView),
}

impl View for Instruction {
    type V = InstructionView;

    open spec fn view(&self) -> InstructionView {
        match self {
            Instruction::Assert(artifact) => InstructionView::Assert(artifact@),
            Instruction::Replace(artifact) => InstructionView::Replace(artifact@),
            Instruction::Retract(artifact) => InstructionView::Retract(artifact@),
        }
    }
}

/// The three changes differ in what they do to the value, and are about the
/// same attribute of the same entity.
pub proof fn law_changes_say_what_they_do(the: Seq<char>, of: Seq<char>, is: ValueView)
    ensures
        asserts(the, of, is).change == ChangeView::Assert(is),
        replaces(the, of, is).change == ChangeView::Replace(is),
        retracts(the, of, is).change == ChangeView::Retract(is),
        asserts(the, of, is).the == the && asserts(the, of, is).of == of,
        replaces(the, of, is).the == the && replaces(the, of, is).of == of,
        retracts(the, of, is).the == the && retracts(the, of, is).of == of,
{
}

} // verus!
