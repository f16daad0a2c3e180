//! What a read in the midst of a transaction has to do with one after its
//! commit.

use crate::artifact::ArtifactView;
use crate::changes::{asserts, replaces, ChangeView, PendingView};
use crate::layer::ItemView;
use crate::layer_laws::{all_sorted, sorted, states};
use crate::session::layered;
use crate::session_laws::law_queries_read_the_union;
use crate::tombstones::{lemma_tombstones_push, tombstones_of, FactView};
use vstd::prelude::*;

verus! {

impl PendingView {
    /// The fact that the change is about.
    pub open spec fn fact(self) -> FactView {
        FactView {
            the: self.the,
            of: self.of,
            is: match self.change {
                ChangeView::Assert(is) => is,
                ChangeView::Replace(is) => is,
                ChangeView::Retract(is) => is,
            },
        }
    }
}

/// The stored facts after one change was written: an assertion adds its fact,
/// a replacement puts its fact in the place of all beside it, and a retraction
/// takes its fact away.
pub open spec fn after_change(facts: Set<FactView>, pending: PendingView) -> Set<FactView> {
    match pending.change {
        ChangeView::Assert(_) => facts.insert(pending.fact()),
        ChangeView::Replace(_) => Set::new(
            |other: FactView| facts.contains(other) && !other.beside(pending.fact()),
        ).insert(pending.fact()),
        ChangeView::Retract(_) => facts.remove(pending.fact()),
    }
}

/// The stored facts after the changes were written, one after another.
pub open spec fn written(facts: Set<FactView>, changes: Seq<PendingView>) -> Set<FactView>
    decreases changes.len(),
{
    if changes.len() == 0 {
        facts
    } else {
        after_change(written(facts, changes.drop_last()), changes.last())
    }
}

/// The facts that the changes add.
pub open spec fn additions(changes: Seq<PendingView>) -> Set<FactView> {
    Set::new(
        |fact: FactView|
            changes.contains(asserts(fact.the, fact.of, fact.is)) || changes.contains(
                replaces(fact.the, fact.of, fact.is),
            ),
    )
}

/// The facts that are read while the changes are pending: those that they add,
/// and the stored ones that they do not hide.
pub open spec fn pending_read(facts: Set<FactView>, changes: Seq<PendingView>) -> Set<FactView> {
    Set::new(
        |fact: FactView|
            additions(changes).contains(fact) || (facts.contains(fact) && !tombstones_of(
                changes,
            ).shadows(fact)),
    )
}

/// What is written is read beforehand, and what is read and not added by the
/// changes themselves is written.
proof fn lemma_read_and_written(
    facts: Set<FactView>,
    changes: Seq<PendingView>,
    fact: FactView,
)
    ensures
        written(facts, changes).contains(fact) ==> pending_read(facts, changes).contains(fact),
        pending_read(facts, changes).contains(fact) && !additions(changes).contains(fact)
            ==> written(facts, changes).contains(fact),
    decreases changes.len(),
{
    if changes.len() == 0 {
        let tombstones = tombstones_of(changes);
        assert(!tombstones.replaces_beside(fact)) by {
            if tombstones.replaces_beside(fact) {
                let other = choose|other: FactView| #[trigger]
                    tombstones.replacements.contains(other) && other.beside(fact);
                assert(changes.contains(replaces(other.the, other.of, other.is)));
            }
        }
    } else {
        let before = changes.drop_last();
        let last = changes.last();
        assert(changes =~= before.push(last));
        lemma_read_and_written(facts, before, fact);
        lemma_tombstones_push(before, last);
        assert forall|other: PendingView| #[trigger] changes.contains(other) <==> (before.contains(
            other,
        ) || other == last) by {
            if before.contains(other) {
                let k = choose|k: int| 0 <= k < before.len() && before[k] == other;
                assert(changes[k] == other);
            }
            if changes.contains(other) {
                let k = choose|k: int| 0 <= k < changes.len() && changes[k] == other;
                if k < before.len() {
                    assert(before[k] == other);
                }
            }
            assert(changes[before.len() as int] == last);
        }
        let old_tombstones = tombstones_of(before);
        let tombstones = tombstones_of(changes);
        assert(old_tombstones.replaces_beside(fact) ==> tombstones.replaces_beside(fact)) by {
            if old_tombstones.replaces_beside(fact) {
                let other = choose|other: FactView| #[trigger]
                    old_tombstones.replacements.contains(other) && other.beside(fact);
                assert(tombstones.replacements.contains(other));
            }
        }
        assert(tombstones.replaces_beside(fact) ==> old_tombstones.replaces_beside(fact) || (
        last.change is Replace && last.fact().beside(fact))) by {
            if tombstones.replaces_beside(fact) {
                let other = choose|other: FactView| #[trigger]
                    tombstones.replacements.contains(other) && other.beside(fact);
                if other != last.fact() {
                    assert(old_tombstones.replacements.contains(other));
                }
            }
        }
        assert(last.change is Replace ==> tombstones.replacements.contains(last.fact()));
    }
}

/// A read in the midst of a transaction misses nothing that the commit will
/// leave. It agrees with a read after the commit wherever the transaction does
/// not take away again what it added itself.
pub proof fn law_pending_reads_agree_with_the_commit(
    facts: Set<FactView>,
    changes: Seq<PendingView>,
)
    ensures
        written(facts, changes).subset_of(pending_read(facts, changes)),
        pending_read(facts, changes) == written(facts, changes) <==> additions(changes).subset_of(
            written(facts, changes),
        ),
{
    let read = pending_read(facts, changes);
    let after = written(facts, changes);
    assert forall|fact: FactView| after.contains(fact) implies read.contains(fact) by {
        lemma_read_and_written(facts, changes, fact);
    }
    if additions(changes).subset_of(after) {
        assert forall|fact: FactView| read.contains(fact) implies after.contains(fact) by {
            lemma_read_and_written(facts, changes, fact);
        }
        assert(read =~= after);
    } else {
        let fact = choose|fact: FactView|
            additions(changes).contains(fact) && !after.contains(fact);
        assert(read.contains(fact));
    }
}

/// The facts that a stream states.
pub open spec fn stated(stream: Seq<ItemView>) -> Set<FactView> {
    Set::new(
        |fact: FactView|
            exists|artifact: ArtifactView| #[trigger]
                states(stream, artifact) && artifact.fact() == fact,
    )
}

/// The facts that several streams state.
pub open spec fn stated_by_any(streams: Seq<Seq<ItemView>>) -> Set<FactView> {
    Set::new(
        |fact: FactView|
            exists|i: int| 0 <= i < streams.len() && stated(#[trigger] streams[i]).contains(fact),
    )
}

/// The facts that a query picks.
pub open spec fn picked(facts: Set<FactView>, picks: spec_fn(FactView) -> bool) -> Set<FactView> {
    Set::new(|fact: FactView| facts.contains(fact) && picks(fact))
}

/// Reads see their own writes: while changes are pending, a query that picks
/// facts of its branches, and of what the changes add, reads what it picks of
/// the facts that the changes leave once they are written. This holds where
/// the changes do not take away again what they added of it.
pub proof fn law_queries_read_their_writes(
    facts: Set<FactView>,
    picks: spec_fn(FactView) -> bool,
    streams: Seq<Seq<ItemView>>,
    overlay: Seq<ItemView>,
    changes: Seq<PendingView>,
)
    requires
        all_sorted(streams),
        sorted(overlay),
        stated_by_any(streams) == picked(facts, picks),
        stated(overlay) == picked(additions(changes), picks),
        picked(additions(changes), picks).subset_of(written(facts, changes)),
    ensures
        stated(layered(streams, overlay, tombstones_of(changes))) == picked(
            written(facts, changes),
            picks,
        ),
{
    let read = layered(streams, overlay, tombstones_of(changes));
    let after = picked(written(facts, changes), picks);
    assert forall|fact: FactView| #[trigger] stated(read).contains(fact) <==> after.contains(
        fact,
    ) by {
        lemma_read_and_written(facts, changes, fact);
        if stated(read).contains(fact) {
            let artifact = choose|artifact: ArtifactView| #[trigger]
                states(read, artifact) && artifact.fact() == fact;
            law_queries_read_the_union(streams, overlay, tombstones_of(changes), artifact);
            if states(overlay, artifact) {
                assert(stated(overlay).contains(fact));
            } else {
                let i = choose|i: int|
                    0 <= i < streams.len() && states(#[trigger] streams[i], artifact);
                assert(stated(streams[i]).contains(fact));
                assert(stated_by_any(streams).contains(fact));
                if additions(changes).contains(fact) {
                    assert(picked(additions(changes), picks).contains(fact));
                }
            }
        }
        if after.contains(fact) {
            if additions(changes).contains(fact) {
                assert(stated(overlay).contains(fact));
                let artifact = choose|artifact: ArtifactView| #[trigger]
                    states(overlay, artifact) && artifact.fact() == fact;
                law_queries_read_the_union(streams, overlay, tombstones_of(changes), artifact);
            } else {
                assert(stated_by_any(streams).contains(fact));
                let i = choose|i: int|
                    0 <= i < streams.len() && stated(#[trigger] streams[i]).contains(fact);
                let artifact = choose|artifact: ArtifactView| #[trigger]
                    states(streams[i], artifact) && artifact.fact() == fact;
                law_queries_read_the_union(streams, overlay, tombstones_of(changes), artifact);
            }
        }
    }
    assert(stated(read) =~= after);
}

} // verus!
