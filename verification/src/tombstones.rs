//! What pending changes hide of the facts that are already stored.

use crate::artifact::{key_le, Artifact, ArtifactView, Value, ValueView};
use crate::changes::{asserts, replaces, retracts, Change, ChangeView, Changes, PendingView};
use crate::identity::{Attribute, Entity};
use crate::layer::{item_view, reversed, stream_view, Item, ItemView};
use crate::layer_laws::sorted;
use crate::plain::{contains, lemma_views_push, views, Plain};
use vstd::prelude::*;

verus! {

/// A fact without the reference to the one that it supersedes.
#[derive(Clone, Debug, PartialEq, Eq, Hash)]
pub struct Fact {
    /// The attribute.
    pub the: Attribute,
    /// The entity.
    pub of: Entity,
    /// The value.
    pub is: Value,
}

/// What a [`Fact`] holds.
#[verifier::ext_equal]
pub struct FactView {
    pub the: Seq<char>,
    pub of: Seq<char>,
    pub is: ValueView,
}

impl FactView {
    /// Whether the facts are about one attribute of one entity.
    pub open spec fn beside(self, other: FactView) -> bool {
        self.the == other.the && self.of == other.of
    }
}

impl ArtifactView {
    /// The fact that the artifact states.
    pub open spec fn fact(self) -> FactView {
        FactView { the: self.the, of: self.of, is: self.is }
    }
}

impl View for Fact {
    type V = FactView;

    open spec fn view(&self) -> FactView {
        FactView { the: self.the@, of: self.of@, is: self.is@ }
    }
}

impl Plain for Fact {
    fn copy(&self) -> (result: Self) {
        Fact { the: self.the.copy(), of: self.of.copy(), is: self.is.copy() }
    }

    fn same(&self, other: &Self) -> (result: bool) {
        self.the.same(&other.the) && self.of.same(&other.of) && self.is.same(&other.is)
    }
}

impl Fact {
    /// The fact that the artifact states.
    pub fn from_artifact(artifact: &Artifact) -> (result: Fact)
        ensures
            result@ == artifact@.fact(),
    {
        Fact { the: artifact.the.copy(), of: artifact.of.copy(), is: artifact.is.copy() }
    }
}

/// The stored facts that pending changes hide, so that a read in the midst
/// of a transaction agrees with one after its commit.
///
/// A retraction hides one fact. A replacement hides every fact about the same
/// attribute of the same entity, except those that hold a replacing value.
/// Assertions hide nothing.
#[derive(Clone, Debug, PartialEq, Eq)]
pub struct Tombstones {
    /// The retracted facts, each once.
    pub retracts: Vec<Fact>,
    /// The facts that replace others, each once.
    pub replacements: Vec<Fact>,
}

/// What [`Tombstones`] hold.
#[verifier::ext_equal]
pub struct TombstonesView {
    pub retracts: Set<FactView>,
    pub replacements: Set<FactView>,
}

impl View for Tombstones {
    type V = TombstonesView;

    open spec fn view(&self) -> TombstonesView {
        TombstonesView {
            retracts: views(self.retracts@).to_set(),
            replacements: views(self.replacements@).to_set(),
        }
    }
}

impl TombstonesView {
    /// Tombstones that hide nothing.
    pub open spec fn none() -> TombstonesView {
        TombstonesView { retracts: Set::empty(), replacements: Set::empty() }
    }

    /// Whether a fact beside `fact` takes the place of others.
    pub open spec fn replaces_beside(self, fact: FactView) -> bool {
        exists|other: FactView| #[trigger] self.replacements.contains(other) && other.beside(fact)
    }

    /// Whether the stored fact is hidden.
    pub open spec fn shadows(self, fact: FactView) -> bool {
        self.retracts.contains(fact) || (self.replaces_beside(fact) && !self.replacements.contains(
            fact,
        ))
    }
}

impl Default for Tombstones {
    fn default() -> (result: Tombstones)
        ensures
            result.well_formed(),
            result@ == TombstonesView::none(),
    {
        let result = Tombstones { retracts: Vec::new(), replacements: Vec::new() };
        assert(result@ =~= TombstonesView::none()) by {
            assert(views(result.retracts@) =~= Seq::<FactView>::empty());
            assert(views(result.replacements@) =~= Seq::<FactView>::empty());
        }
        result
    }
}

/// Adds a fact to a list that holds each fact once.
fn insert(facts: &mut Vec<Fact>, fact: Fact)
    requires
        views(old(facts)@).no_duplicates(),
    ensures
        views(final(facts)@).to_set() == views(old(facts)@).to_set().insert(fact@),
        views(final(facts)@).no_duplicates(),
{
    let ghost before = views(facts@);
    if contains(facts, &fact) {
        assert(before.to_set() =~= before.to_set().insert(fact@));
    } else {
        proof {
            lemma_views_push(facts@, fact);
            let after = before.push(fact@);
            assert(after.to_set() =~= before.to_set().insert(fact@)) by {
                assert(after[before.len() as int] == fact@);
                assert forall|f: FactView| before.contains(f) implies after.contains(f) by {
                    let k = choose|k: int| 0 <= k < before.len() && before[k] == f;
                    assert(after[k] == f);
                }
            }
        }
        facts.push(fact);
    }
}

impl Tombstones {
    /// Whether each fact is held once.
    pub open spec fn well_formed(&self) -> bool {
        views(self.retracts@).no_duplicates() && views(self.replacements@).no_duplicates()
    }

    /// Whether nothing is hidden.
    pub fn is_empty(&self) -> (result: bool)
        ensures
            result == (self@ == TombstonesView::none()),
    {
        let result = self.retracts.len() == 0 && self.replacements.len() == 0;
        proof {
            if result {
                assert(self@ =~= TombstonesView::none());
            } else if self.retracts@.len() > 0 {
                assert(views(self.retracts@).contains(views(self.retracts@)[0]));
                assert(self@.retracts.contains(views(self.retracts@)[0]));
            } else {
                assert(views(self.replacements@).contains(views(self.replacements@)[0]));
                assert(self@.replacements.contains(views(self.replacements@)[0]));
            }
        }
        result
    }

    /// Hides one fact.
    pub fn retract(&mut self, fact: Fact)
        requires
            old(self).well_formed(),
        ensures
            final(self).well_formed(),
            final(self)@ == (TombstonesView {
                retracts: old(self)@.retracts.insert(fact@),
                ..old(self)@
            }),
    {
        insert(&mut self.retracts, fact);
    }

    /// Hides the facts beside `fact`, but not `fact` itself.
    pub fn replace(&mut self, fact: Fact)
        requires
            old(self).well_formed(),
        ensures
            final(self).well_formed(),
            final(self)@ == (TombstonesView {
                replacements: old(self)@.replacements.insert(fact@),
                ..old(self)@
            }),
    {
        insert(&mut self.replacements, fact);
    }

    /// Whether a stored artifact is hidden.
    pub fn shadows(&self, artifact: &Artifact) -> (result: bool)
        ensures
            result == self@.shadows(artifact@.fact()),
    {
        let fact = Fact::from_artifact(artifact);
        if contains(&self.retracts, &fact) {
            return true;
        }
        let mut i: usize = 0;
        while i < self.replacements.len()
            invariant
                i <= self.replacements@.len(),
                fact@ == artifact@.fact(),
                !self@.retracts.contains(fact@),
                forall|j: int| 0 <= j < i ==> !(#[trigger] self.replacements@[j])@.beside(fact@),
            decreases self.replacements@.len() - i,
        {
            if self.replacements[i].the.same(&fact.the) && self.replacements[i].of.same(&fact.of) {
                proof {
                    let other = self.replacements@[i as int]@;
                    assert(views(self.replacements@)[i as int] == other);
                    assert(self@.replacements.contains(other));
                }
                return !contains(&self.replacements, &fact);
            }
            i += 1;
        }
        assert(!self@.replaces_beside(fact@)) by {
            if self@.replaces_beside(fact@) {
                let other = choose|other: FactView| #[trigger]
                    self@.replacements.contains(other) && other.beside(fact@);
                let j = choose|j: int|
                    0 <= j < views(self.replacements@).len() && views(self.replacements@)[j]
                        == other;
                assert(self.replacements@[j]@ == other);
            }
        }
        false
    }
}

/// The facts that the changes hide.
pub open spec fn tombstones_of(changes: Seq<PendingView>) -> TombstonesView {
    TombstonesView {
        retracts: Set::new(|fact: FactView| changes.contains(retracts(fact.the, fact.of, fact.is))),
        replacements: Set::new(
            |fact: FactView| changes.contains(replaces(fact.the, fact.of, fact.is)),
        ),
    }
}

/// One more change hides what it retracts or replaces.
pub proof fn lemma_tombstones_push(changes: Seq<PendingView>, pending: PendingView)
    ensures
        tombstones_of(changes.push(pending)) == {
            let before = tombstones_of(changes);
            match pending.change {
                ChangeView::Assert(_) => before,
                ChangeView::Replace(is) => TombstonesView {
                    replacements: before.replacements.insert(
                        FactView { the: pending.the, of: pending.of, is },
                    ),
                    ..before
                },
                ChangeView::Retract(is) => TombstonesView {
                    retracts: before.retracts.insert(
                        FactView { the: pending.the, of: pending.of, is },
                    ),
                    ..before
                },
            }
        },
{
    let more = changes.push(pending);
    assert forall|other: PendingView| #[trigger] more.contains(other) <==> (changes.contains(other)
        || other == pending) by {
        if changes.contains(other) {
            let k = choose|k: int| 0 <= k < changes.len() && changes[k] == other;
            assert(more[k] == other);
        }
        assert(more[changes.len() as int] == pending);
    }
    let before = tombstones_of(changes);
    let after = tombstones_of(more);
    match pending.change {
        ChangeView::Assert(_) => {
            assert(after.retracts =~= before.retracts);
            assert(after.replacements =~= before.replacements);
        },
        ChangeView::Replace(is) => {
            let fact = FactView { the: pending.the, of: pending.of, is };
            assert(after.retracts =~= before.retracts);
            assert(after.replacements =~= before.replacements.insert(fact));
        },
        ChangeView::Retract(is) => {
            let fact = FactView { the: pending.the, of: pending.of, is };
            assert(after.retracts =~= before.retracts.insert(fact));
            assert(after.replacements =~= before.replacements);
        },
    }
}

/// Finds what the changes hide: each retracted fact, and the facts beside
/// each replacing one.
pub fn tombstones_from(changes: &Changes) -> (result: Tombstones)
    ensures
        result.well_formed(),
        result@ == tombstones_of(changes@),
{
    let mut tombstones = Tombstones::default();
    assert(tombstones@ =~= tombstones_of(changes@.take(0)));
    let mut i: usize = 0;
    while i < changes.log.len()
        invariant
            i <= changes.log@.len(),
            tombstones.well_formed(),
            tombstones@ == tombstones_of(changes@.take(i as int)),
        decreases changes.log@.len() - i,
    {
        let pending = &changes.log[i];
        proof {
            lemma_tombstones_push(changes@.take(i as int), pending@);
            assert(changes@.take(i + 1) =~= changes@.take(i as int).push(pending@));
        }
        match &pending.change {
            Change::Retract(value) => {
                let fact = Fact {
                    the: pending.the.copy(),
                    of: pending.of.copy(),
                    is: value.copy(),
                };
                tombstones.retract(fact);
            },
            Change::Replace(value) => {
                let fact = Fact {
                    the: pending.the.copy(),
                    of: pending.of.copy(),
                    is: value.copy(),
                };
                tombstones.replace(fact);
            },
            Change::Assert(_) => {},
        }
        i += 1;
    }
    assert(changes@.take(i as int) =~= changes@);
    tombstones
}

/// Whether the item is a stored fact that is hidden.
pub open spec fn hidden(item: ItemView, tombstones: TombstonesView) -> bool {
    item matches Ok(claim) && tombstones.shadows(claim.artifact.fact())
}

/// The stream without the facts that are hidden.
pub open spec fn visible(stream: Seq<ItemView>, tombstones: TombstonesView) -> Seq<ItemView> {
    stream.filter(|item: ItemView| !hidden(item, tombstones))
}

/// Drops the claims of hidden facts from a stream.
pub fn filter_tombstones(inner: Vec<Item>, tombstones: &Tombstones) -> (result: Vec<Item>)
    ensures
        stream_view(result@) == visible(stream_view(inner@), tombstones@),
{
    if tombstones.is_empty() {
        proof {
            law_nothing_hidden(stream_view(inner@));
        }
        return inner;
    }
    let ghost all = stream_view(inner@);
    let ghost keep = |item: ItemView| !hidden(item, tombstones@);
    let ghost given = inner@;
    let mut inner = reversed(inner);
    let mut result: Vec<Item> = Vec::new();
    assert(stream_view(result@) =~= all.take(0).filter(keep)) by {
        reveal(Seq::filter);
    }
    while inner.len() > 0
        invariant
            all == stream_view(given),
            inner@.len() <= given.len(),
            inner@ == given.skip(given.len() - inner@.len()).reverse(),
            keep == (|item: ItemView| !hidden(item, tombstones@)),
            stream_view(result@) == all.take(all.len() - inner@.len()).filter(keep),
        ensures
            inner@.len() == 0,
        decreases inner@.len(),
    {
        let ghost k = all.len() - inner@.len();
        let item = match inner.pop() {
            Some(item) => item,
            None => {
                assert(false);
                break;
            },
        };
        assert(item == given[k]);
        assert(inner@ =~= given.skip(k + 1).reverse());
        proof {
            reveal(Seq::filter);
            assert(all.take(k + 1).drop_last() =~= all.take(k));
            assert(all.take(k + 1).last() == item_view(item));
            assert(stream_view(result@.push(item)) =~= stream_view(result@).push(item_view(item)));
        }
        let drop = match &item {
            Ok(claim) => tombstones.shadows(&claim.artifact),
            Err(_) => false,
        };
        if !drop {
            result.push(item);
        }
    }
    assert(all.take(all.len() as int) =~= all);
    result
}

/// Where nothing is hidden, a stream is left as it is.
pub proof fn law_nothing_hidden(stream: Seq<ItemView>)
    ensures
        visible(stream, TombstonesView::none()) == stream,
    decreases stream.len(),
{
    reveal(Seq::filter);
    if stream.len() > 0 {
        law_nothing_hidden(stream.drop_last());
        assert(stream =~= stream.drop_last().push(stream.last()));
    } else {
        assert(visible(stream, TombstonesView::none()) =~= stream);
    }
}

/// What is left of a stream is what was in it and is not hidden.
pub proof fn law_visible(stream: Seq<ItemView>, tombstones: TombstonesView, item: ItemView)
    ensures
        visible(stream, tombstones).contains(item) <==> stream.contains(item) && !hidden(
            item,
            tombstones,
        ),
    decreases stream.len(),
{
    reveal(Seq::filter);
    if stream.len() > 0 {
        let init = stream.drop_last();
        let last = stream.last();
        law_visible(init, tombstones, item);
        let rest = visible(init, tombstones);
        assert(stream.contains(item) <==> init.contains(item) || item == last) by {
            if stream.contains(item) {
                let k = choose|k: int| 0 <= k < stream.len() && stream[k] == item;
                if k < init.len() {
                    assert(init[k] == item);
                }
            }
            if init.contains(item) {
                let k = choose|k: int| 0 <= k < init.len() && init[k] == item;
                assert(stream[k] == item);
            }
            assert(stream[stream.len() - 1] == last);
        }
        assert(rest.push(last).contains(item) <==> rest.contains(item) || item == last) by {
            if rest.push(last).contains(item) {
                let k = choose|k: int| 0 <= k < rest.push(last).len() && rest.push(last)[k] == item;
                if k < rest.len() {
                    assert(rest[k] == item);
                }
            }
            if rest.contains(item) {
                let k = choose|k: int| 0 <= k < rest.len() && rest[k] == item;
                assert(rest.push(last)[k] == item);
            }
            assert(rest.push(last)[rest.len() as int] == last);
        }
    }
}

/// A retracted fact is hidden.
pub proof fn law_retracted_facts_are_hidden(changes: Seq<PendingView>, fact: FactView)
    requires
        changes.contains(retracts(fact.the, fact.of, fact.is)),
    ensures
        tombstones_of(changes).shadows(fact),
{
}

/// Reads see their own writes: where a replacement is pending, the only facts
/// left beside it are those that hold a replacing value.
pub proof fn law_replaced_facts_are_hidden(
    changes: Seq<PendingView>,
    replacement: FactView,
    fact: FactView,
)
    requires
        changes.contains(replaces(replacement.the, replacement.of, replacement.is)),
        fact.beside(replacement),
        !tombstones_of(changes).shadows(fact),
    ensures
        changes.contains(replaces(fact.the, fact.of, fact.is)),
{
    assert(tombstones_of(changes).replacements.contains(replacement));
}

/// A stored fact that already holds the replacing value is not hidden by the
/// replacement.
pub proof fn law_replacing_facts_survive(changes: Seq<PendingView>, fact: FactView)
    requires
        changes.contains(replaces(fact.the, fact.of, fact.is)),
        !changes.contains(retracts(fact.the, fact.of, fact.is)),
    ensures
        !tombstones_of(changes).shadows(fact),
{
}

/// A fact beside which nothing is replaced is hidden only by its own
/// retraction.
pub proof fn law_other_facts_are_untouched(changes: Seq<PendingView>, fact: FactView)
    requires
        !changes.contains(retracts(fact.the, fact.of, fact.is)),
        forall|is: ValueView| !changes.contains(#[trigger] replaces(fact.the, fact.of, is)),
    ensures
        !tombstones_of(changes).shadows(fact),
{
    let tombstones = tombstones_of(changes);
    if tombstones.replaces_beside(fact) {
        let other = choose|other: FactView| #[trigger]
            tombstones.replacements.contains(other) && other.beside(fact);
        assert(changes.contains(replaces(fact.the, fact.of, other.is)));
    }
}

/// An assertion hides nothing: it leaves what other changes hide as it is.
pub proof fn law_assertions_hide_nothing(
    changes: Seq<PendingView>,
    the: Seq<char>,
    of: Seq<char>,
    is: ValueView,
)
    ensures
        tombstones_of(changes.push(asserts(the, of, is))) == tombstones_of(changes),
{
    lemma_tombstones_push(changes, asserts(the, of, is));
}

/// Hiding facts keeps the order of the rest.
pub proof fn law_visible_is_sorted(stream: Seq<ItemView>, tombstones: TombstonesView)
    requires
        sorted(stream),
    ensures
        sorted(visible(stream, tombstones)),
    decreases stream.len(),
{
    reveal(Seq::filter);
    if stream.len() > 0 {
        let init = stream.drop_last();
        let last = stream.last();
        assert(sorted(init)) by {
            assert forall|i: int| 0 <= i < init.len() implies (#[trigger] init[i]) is Ok by {
                assert(init[i] == stream[i]);
            }
            assert forall|i: int, j: int| 0 <= i < j < init.len() implies key_le(
                (#[trigger] init[i])->Ok_0.key,
                (#[trigger] init[j])->Ok_0.key,
            ) by {
                assert(init[i] == stream[i] && init[j] == stream[j]);
            }
        }
        law_visible_is_sorted(init, tombstones);
        let rest = visible(init, tombstones);
        let all = rest.push(last);
        assert(stream[stream.len() - 1] is Ok);
        assert(sorted(all)) by {
            assert forall|i: int| 0 <= i < all.len() implies (#[trigger] all[i]) is Ok by {
                if i < rest.len() {
                    assert(all[i] == rest[i]);
                }
            }
            assert forall|i: int, j: int| 0 <= i < j < all.len() implies key_le(
                (#[trigger] all[i])->Ok_0.key,
                (#[trigger] all[j])->Ok_0.key,
            ) by {
                assert(all[i] == rest[i]);
                if j < rest.len() {
                    assert(all[j] == rest[j]);
                } else {
                    assert(rest.contains(rest[i]));
                    law_visible(init, tombstones, rest[i]);
                    let k = choose|k: int| 0 <= k < init.len() && init[k] == rest[i];
                    assert(stream[k] == rest[i]);
                    assert(stream[stream.len() - 1] == all[j]);
                }
            }
        }
    }
}

/// What changes hide: a fact is hidden just where one of them retracts it, or
/// where one puts another value in the place of those beside it and none puts
/// this very value there.
pub proof fn law_what_changes_hide(changes: Seq<PendingView>, fact: FactView)
    ensures
        tombstones_of(changes).shadows(fact) <==> (changes.contains(
            retracts(fact.the, fact.of, fact.is),
        ) || (!changes.contains(replaces(fact.the, fact.of, fact.is)) && exists|is: ValueView|
            changes.contains(#[trigger] replaces(fact.the, fact.of, is)))),
{
    let tombstones = tombstones_of(changes);
    if tombstones.replaces_beside(fact) {
        let other = choose|other: FactView| #[trigger]
            tombstones.replacements.contains(other) && other.beside(fact);
        assert(changes.contains(replaces(fact.the, fact.of, other.is)));
    }
    if exists|is: ValueView| changes.contains(#[trigger] replaces(fact.the, fact.of, is)) {
        let is = choose|is: ValueView| changes.contains(#[trigger] replaces(fact.the, fact.of, is));
        let other = FactView { the: fact.the, of: fact.of, is };
        assert(tombstones.replacements.contains(other));
        assert(other.beside(fact));
    }
}

/// Filtering goes item by item: what is left of two streams in a row is what
/// is left of the one and then of the other. A claim is left just where its
/// fact is not hidden, and an error is always left.
pub proof fn law_filtering_goes_item_by_item(
    a: Seq<ItemView>,
    b: Seq<ItemView>,
    item: ItemView,
    tombstones: TombstonesView,
)
    ensures
        visible(a + b, tombstones) == visible(a, tombstones) + visible(b, tombstones),
        item is Err ==> visible(seq![item], tombstones) == seq![item],
        item matches Ok(claim) ==> visible(seq![item], tombstones) == (if tombstones.shadows(
            FactView { the: claim.artifact.the, of: claim.artifact.of, is: claim.artifact.is },
        ) {
            Seq::empty()
        } else {
            seq![item]
        }),
    decreases b.len(),
{
    reveal(Seq::filter);
    let keep = |item: ItemView| !hidden(item, tombstones);
    if b.len() == 0 {
        assert(a + b =~= a);
        assert(visible(a + b, tombstones) =~= visible(a, tombstones) + visible(b, tombstones));
    } else {
        law_filtering_goes_item_by_item(a, b.drop_last(), item, tombstones);
        assert((a + b).drop_last() =~= a + b.drop_last());
        assert((a + b).last() == b.last());
        assert(visible(a + b, tombstones) =~= visible(a, tombstones) + visible(b, tombstones));
    }
    let one = seq![item];
    assert(one.drop_last() =~= Seq::empty());
    assert(one.drop_last().filter(keep) =~= Seq::empty());
    assert(one.last() == item);
    assert(visible(one, tombstones) =~= if hidden(item, tombstones) {
        Seq::empty()
    } else {
        seq![item]
    });
}

} // verus!
