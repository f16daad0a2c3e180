//! Facts out of a branch, and into it.

use super::commit::{performed, Asked, Commit, Replies};
use super::Branch;
use crate::artifact::{Artifact, ArtifactView};
use crate::changes::{Instruction, InstructionView};
use crate::error::{ArtifactError, CommitError};
use crate::layer::reversed;
use crate::plain::{lemma_views_push, opt_view, views};
use crate::revision::{Revision, TreeReference};
use crate::upstream::remote_of;
use vstd::prelude::*;

verus! {

/// An entry of the tree that is exported.
#[derive(Debug, PartialEq, Eq)]
pub enum State {
    /// A fact, or the failure to decode it.
    Added(Result<Artifact, ArtifactError>),
    /// A fact that was taken away.
    Removed,
}

/// What comes next in an export.
#[derive(Clone, Debug, PartialEq, Eq)]
pub enum Exporting {
    /// The fact is to be written.
    Write(Artifact),
    /// There is nothing to write for the entry.
    Next,
    /// All is written.
    Close,
}

/// Decides on the next entry of an export: facts are written, entries that
/// took facts away are passed over, and the first failure ends the export
/// without closing it.
pub fn export_step(
    entry: Option<Result<State, ArtifactError>>,
) -> (result: Result<Exporting, ArtifactError>)
    ensures
        match entry {
            None => result matches Ok(Exporting::Close),
            Some(Err(error)) => result == Err::<Exporting, ArtifactError>(error),
            Some(Ok(State::Removed)) => result matches Ok(Exporting::Next),
            Some(Ok(State::Added(Err(error)))) => result == Err::<Exporting, ArtifactError>(error),
            Some(Ok(State::Added(Ok(artifact)))) => result == Ok::<Exporting, ArtifactError>(
                Exporting::Write(artifact),
            ),
        },
{
    match entry {
        None => Ok(Exporting::Close),
        Some(Err(error)) => Err(error),
        Some(Ok(State::Removed)) => Ok(Exporting::Next),
        Some(Ok(State::Added(Err(error)))) => Err(error),
        Some(Ok(State::Added(Ok(artifact)))) => Ok(Exporting::Write(artifact)),
    }
}

/// What an export came to.
#[derive(Debug, PartialEq, Eq)]
pub struct Exported {
    /// What was handed to the exporter.
    pub written: Vec<Artifact>,
    /// Whether the exporter was closed.
    pub closed: bool,
    /// How the export ended.
    pub outcome: Result<(), ArtifactError>,
}

/// What an [`Exported`] holds.
#[verifier::ext_equal]
pub struct ExportedView {
    pub written: Seq<ArtifactView>,
    pub closed: bool,
    pub outcome: Result<(), ArtifactError>,
}

impl View for Exported {
    type V = ExportedView;

    open spec fn view(&self) -> ExportedView {
        ExportedView {
            written: views(self.written@),
            closed: self.closed,
            outcome: self.outcome,
        }
    }
}

/// What an export of the entries comes to, where `writes` are the outcomes of
/// the writes and `close` is that of closing.
pub open spec fn export_run(
    entries: Seq<Result<State, ArtifactError>>,
    writes: Seq<Result<(), ArtifactError>>,
    close: Result<(), ArtifactError>,
) -> ExportedView
    decreases entries.len(),
{
    if entries.len() == 0 {
        ExportedView { written: Seq::empty(), closed: true, outcome: close }
    } else {
        match entries[0] {
            Err(error) => ExportedView {
                written: Seq::empty(),
                closed: false,
                outcome: Err(error),
            },
            Ok(State::Added(Err(error))) => ExportedView {
                written: Seq::empty(),
                closed: false,
                outcome: Err(error),
            },
            Ok(State::Removed) => export_run(entries.drop_first(), writes, close),
            Ok(State::Added(Ok(artifact))) => match writes[0] {
                Err(error) => ExportedView {
                    written: seq![artifact@],
                    closed: false,
                    outcome: Err(error),
                },
                Ok(()) => {
                    let rest = export_run(entries.drop_first(), writes.drop_first(), close);
                    ExportedView { written: seq![artifact@] + rest.written, ..rest }
                },
            },
        }
    }
}

/// The number of facts among the entries.
pub open spec fn fact_count(entries: Seq<Result<State, ArtifactError>>) -> nat
    decreases entries.len(),
{
    if entries.len() == 0 {
        0
    } else {
        fact_count(entries.drop_first()) + (if entries[0] matches Ok(State::Added(Ok(_))) {
            1nat
        } else {
            0nat
        })
    }
}

/// An export of all facts of a branch.
pub struct Export<'a> {
    /// The branch.
    pub branch: &'a Branch,
}

impl Branch {
    /// An export of all facts of the branch.
    pub fn export(&self) -> (result: Export<'_>)
        ensures
            result.branch@ == self@,
    {
        Export { branch: self }
    }
}

impl<'a> Export<'a> {
    /// The root of the tree that is exported.
    pub fn tree_hash(&self) -> (result: TreeReference)
        ensures
            result@ == self.branch@.tree(),
    {
        self.branch.tree()
    }

    /// The remote that blocks not held here may be read from: that of the
    /// first upstream on one.
    pub fn remote(&self) -> (result: Option<String>)
        ensures
            opt_view(result) == remote_of(self.branch@.upstreams()),
    {
        match self.branch.upstreams().remote_name() {
            Some(name) => Some(name.to_owned()),
            None => None,
        }
    }

    /// An export as a whole, for given entries of the tree and given outcomes.
    pub fn perform(
        self,
        entries: Vec<Result<State, ArtifactError>>,
        writes: Vec<Result<(), ArtifactError>>,
        close: Result<(), ArtifactError>,
    ) -> (result: Exported)
        requires
            writes@.len() >= fact_count(entries@),
        ensures
            result@ == export_run(entries@, writes@, close),
    {
        let ghost goal = export_run(entries@, writes@, close);
        let ghost mut left = entries@;
        let ghost mut outcomes = writes@;
        let mut scan = reversed(entries);
        let mut answers = reversed(writes);
        let mut written: Vec<Artifact> = Vec::new();
        assert(views(written@) + goal.written =~= goal.written);
        loop
            invariant
                goal == export_run(entries@, writes@, close),
                scan@ == left.reverse(),
                answers@ == outcomes.reverse(),
                outcomes.len() >= fact_count(left),
                goal.written == views(written@) + export_run(left, outcomes, close).written,
                goal.closed == export_run(left, outcomes, close).closed,
                goal.outcome == export_run(left, outcomes, close).outcome,
            decreases left.len(),
        {
            let ghost before = views(written@);
            let entry = scan.pop();
            proof {
                if entry is Some {
                    assert(entry->0 == left[0]);
                    assert(scan@ =~= left.drop_first().reverse());
                }
            }
            match export_step(entry) {
                Ok(Exporting::Close) => {
                    assert(before + export_run(left, outcomes, close).written =~= before);
                    return Exported { written, closed: true, outcome: close };
                },
                Ok(Exporting::Next) => {
                    proof {
                        left = left.drop_first();
                    }
                },
                Ok(Exporting::Write(artifact)) => {
                    proof {
                        lemma_views_push(written@, artifact);
                    }
                    written.push(artifact);
                    if let Some(outcome) = answers.pop() {
                        assert(outcome == outcomes[0]);
                        assert(answers@ =~= outcomes.drop_first().reverse());
                        match outcome {
                            Err(error) => {
                                assert(before + seq![artifact@] =~= before.push(artifact@));
                                return Exported { written, closed: false, outcome: Err(error) };
                            },
                            Ok(()) => {
                                proof {
                                    let rest = export_run(
                                        left.drop_first(),
                                        outcomes.drop_first(),
                                        close,
                                    ).written;
                                    assert(before + (seq![artifact@] + rest) =~= before.push(
                                        artifact@,
                                    ) + rest);
                                    left = left.drop_first();
                                    outcomes = outcomes.drop_first();
                                }
                            },
                        }
                    } else {
                        assert(false);
                        return Exported { written, closed: false, outcome: close };
                    }
                },
                Err(error) => {
                    assert(before + export_run(left, outcomes, close).written =~= before);
                    return Exported { written, closed: false, outcome: Err(error) };
                },
            }
        }
    }
}

/// Whether the entry cannot be read.
pub open spec fn unreadable(entry: Result<State, ArtifactError>) -> bool {
    entry is Err || entry matches Ok(State::Added(Err(_)))
}

/// An export that meets an entry that cannot be read fails and is not closed.
/// An export that is not closed has failed.
pub proof fn law_failed_exports_are_not_closed(
    entries: Seq<Result<State, ArtifactError>>,
    writes: Seq<Result<(), ArtifactError>>,
    close: Result<(), ArtifactError>,
)
    requires
        writes.len() >= fact_count(entries),
    ensures
        (exists|i: int| 0 <= i < entries.len() && unreadable(#[trigger] entries[i]))
            ==> !export_run(entries, writes, close).closed,
        !export_run(entries, writes, close).closed ==> export_run(
            entries,
            writes,
            close,
        ).outcome is Err,
        export_run(entries, writes, close).closed ==> export_run(
            entries,
            writes,
            close,
        ).outcome == close,
    decreases entries.len(),
{
    if entries.len() > 0 {
        let rest = entries.drop_first();
        match entries[0] {
            Ok(State::Removed) => {
                law_failed_exports_are_not_closed(rest, writes, close);
            },
            Ok(State::Added(Ok(_))) => {
                law_failed_exports_are_not_closed(rest, writes.drop_first(), close);
            },
            _ => {},
        }
        if exists|i: int| 0 <= i < entries.len() && unreadable(#[trigger] entries[i]) {
            let i = choose|i: int| 0 <= i < entries.len() && unreadable(#[trigger] entries[i]);
            if i > 0 {
                assert(rest[i - 1] == entries[i]);
            }
        }
    }
}

/// The facts among the entries.
pub open spec fn facts_of(entries: Seq<Result<State, ArtifactError>>) -> Seq<ArtifactView>
    decreases entries.len(),
{
    if entries.len() == 0 {
        Seq::empty()
    } else {
        let rest = facts_of(entries.drop_first());
        match entries[0] {
            Ok(State::Added(Ok(artifact))) => seq![artifact@] + rest,
            _ => rest,
        }
    }
}

/// An export that succeeds has written every fact of the branch, in the order
/// of the tree, and nothing else. One that fails has written only facts that
/// come first in that order.
pub proof fn law_exports_write_every_fact(
    entries: Seq<Result<State, ArtifactError>>,
    writes: Seq<Result<(), ArtifactError>>,
    close: Result<(), ArtifactError>,
)
    requires
        writes.len() >= fact_count(entries),
    ensures
        export_run(entries, writes, close).outcome is Ok ==> export_run(
            entries,
            writes,
            close,
        ).written == facts_of(entries),
        export_run(entries, writes, close).written.is_prefix_of(facts_of(entries)),
    decreases entries.len(),
{
    let run = export_run(entries, writes, close).written;
    if entries.len() > 0 {
        let rest = entries.drop_first();
        match entries[0] {
            Ok(State::Removed) => {
                law_exports_write_every_fact(rest, writes, close);
            },
            Ok(State::Added(Ok(artifact))) => {
                if writes[0] is Ok {
                    law_exports_write_every_fact(rest, writes.drop_first(), close);
                    let tail = export_run(rest, writes.drop_first(), close).written;
                    assert(run =~= seq![artifact@] + tail);
                }
                assert(run =~= facts_of(entries).take(run.len() as int));
            },
            _ => {},
        }
    }
    assert(run.is_prefix_of(facts_of(entries)));
}

/// The instructions that put the facts in. What could not be read is left
/// out.
pub open spec fn imported(items: Seq<Result<Artifact, ArtifactError>>) -> Seq<InstructionView>
    decreases items.len(),
{
    if items.len() == 0 {
        Seq::empty()
    } else {
        let before = imported(items.drop_last());
        match items.last() {
            Ok(artifact) => before.push(InstructionView::Assert(artifact@)),
            Err(_) => before,
        }
    }
}

/// Makes the instruction that puts a fact in; none for what could not be
/// read.
pub fn import_step(item: Result<Artifact, ArtifactError>) -> (result: Option<Instruction>)
    ensures
        match item {
            Ok(artifact) => result == Some(Instruction::Assert(artifact)),
            Err(_) => result is None,
        },
{
    match item {
        Ok(artifact) => Some(Instruction::Assert(artifact)),
        Err(_) => None,
    }
}

/// Whether an import of the items, for given replies, takes a branch from
/// `before` to `after`, asks `asked` of the tree and comes to `result`: as the
/// commit of one assertion for each fact that could be read does.
pub open spec fn import_performed(
    before: Branch,
    after: Branch,
    items: Seq<Result<Artifact, ArtifactError>>,
    replies: Replies,
    asked: Option<Asked<Vec<Instruction>>>,
    result: Result<Revision, CommitError>,
) -> bool {
    exists|instructions: Vec<Instruction>|
        views(instructions@) == imported(items) && #[trigger] performed(
            before,
            after,
            instructions,
            replies,
            asked,
            result,
        )
}

/// An import of facts into a branch.
pub struct Import<'a> {
    /// The branch.
    pub branch: &'a Branch,
    /// The facts, and what could not be read.
    pub items: Vec<Result<Artifact, ArtifactError>>,
}

impl Branch {
    /// An import of facts into the branch.
    pub fn import(&self, items: Vec<Result<Artifact, ArtifactError>>) -> (result: Import<'_>)
        ensures
            result.branch@ == self@,
            result.items == items,
    {
        Import { branch: self, items }
    }
}

impl<'a> Import<'a> {
    /// The commit that puts the facts in: one that asserts each of them.
    pub fn commit(self) -> (result: Commit<'a, Vec<Instruction>>)
        ensures
            result.target() == self.branch@,
            views(result.changes@) == imported(self.items@),
            result.head@ == self.branch@.revision.version,
            opt_view(result.base) == self.branch@.head(),
            opt_view(result.remote) == remote_of(self.branch@.upstreams()),
    {
        self.branch.commit(instructions(self.items))
    }

    /// An import as a whole, for given replies. It is the commit of the
    /// instructions that assert each fact; what could not be read is left out
    /// and makes nothing fail.
    pub fn perform(
        branch: &mut Branch,
        items: Vec<Result<Artifact, ArtifactError>>,
        replies: Replies,
    ) -> (result: (Option<Asked<Vec<Instruction>>>, Result<Revision, CommitError>))
        requires
            replies.authority is Ok ==> (old(branch)@.head() matches Some(head) ==> head.edition
                < u64::MAX),
        ensures
            import_performed(
                *old(branch),
                *final(branch),
                items@,
                replies,
                result.0,
                result.1,
            ),
            result.0 matches Some(asked) ==> views(asked.changes@) == imported(items@),
    {
        let instructions = instructions(items);
        Commit::perform(branch, instructions, replies)
    }
}

fn instructions(items: Vec<Result<Artifact, ArtifactError>>) -> (result: Vec<Instruction>)
    ensures
        views(result@) == imported(items@),
{
    let ghost all = items@;
    let mut rest = reversed(items);
    let mut result: Vec<Instruction> = Vec::new();
    assert(all.take(0) =~= Seq::empty());
    assert(views(result@) =~= imported(all.take(0)));
    while rest.len() > 0
        invariant
            rest@.len() <= all.len(),
            rest@ == all.skip(all.len() - rest@.len()).reverse(),
            views(result@) == imported(all.take(all.len() - rest@.len())),
        decreases rest@.len(),
    {
        let ghost k = all.len() - rest@.len();
        if let Some(item) = rest.pop() {
            assert(item == all[k]);
            assert(all.take(k + 1).drop_last() =~= all.take(k));
            assert(rest@ =~= all.skip(k + 1).reverse());
            if let Some(instruction) = import_step(item) {
                proof {
                    lemma_views_push(result@, instruction);
                }
                result.push(instruction);
            }
        }
    }
    assert(all.take(all.len() as int) =~= all);
    result
}

/// The same question to the tree, about other changes that say the same.
pub open spec fn asked_with(
    asked: Option<Asked<Vec<Instruction>>>,
    instructions: Vec<Instruction>,
) -> Option<Asked<Vec<Instruction>>> {
    match asked {
        Some(asked) => Some(Asked { changes: instructions, ..asked }),
        None => None,
    }
}

/// An import is the commit of its facts: for any replies it does what the
/// commit of the instructions that assert each readable fact, in order, does,
/// and comes to what that comes to.
pub proof fn law_imports_are_commits(
    before: Branch,
    after: Branch,
    items: Seq<Result<Artifact, ArtifactError>>,
    instructions: Vec<Instruction>,
    replies: Replies,
    asked: Option<Asked<Vec<Instruction>>>,
    result: Result<Revision, CommitError>,
)
    requires
        views(instructions@) == imported(items),
    ensures
        performed(before, after, instructions, replies, asked, result) ==> import_performed(
            before,
            after,
            items,
            replies,
            asked,
            result,
        ),
        import_performed(before, after, items, replies, asked, result) ==> performed(
            before,
            after,
            instructions,
            replies,
            asked_with(asked, instructions),
            result,
        ),
{
}

/// What cannot be read is skipped: an import without it is the same import.
pub proof fn law_unreadable_facts_are_skipped(
    items: Seq<Result<Artifact, ArtifactError>>,
    i: int,
)
    requires
        0 <= i < items.len(),
        items[i] is Err,
    ensures
        imported(items.remove(i)) == imported(items),
    decreases items.len(),
{
    if i == items.len() - 1 {
        assert(items.remove(i) =~= items.drop_last());
    } else {
        law_unreadable_facts_are_skipped(items.drop_last(), i);
        assert(items.remove(i).drop_last() =~= items.drop_last().remove(i));
        assert(items.remove(i).last() == items.last());
    }
}

/// Where no fact could be read, an import is an empty commit.
pub proof fn law_unreadable_imports_are_empty(items: Seq<Result<Artifact, ArtifactError>>)
    requires
        forall|i: int| 0 <= i < items.len() ==> (#[trigger] items[i]) is Err,
    ensures
        imported(items) == Seq::<InstructionView>::empty(),
    decreases items.len(),
{
    if items.len() > 0 {
        let init = items.drop_last();
        assert forall|i: int| 0 <= i < init.len() implies (#[trigger] init[i]) is Err by {
            assert(init[i] == items[i]);
        }
        law_unreadable_imports_are_empty(init);
        assert(items[items.len() - 1] is Err);
    }
}

/// Where all facts could be read, an import asserts each of them, in order, and
/// does nothing else.
pub proof fn law_import_asserts_every_fact(
    items: Seq<Result<Artifact, ArtifactError>>,
)
    requires
        forall|i: int| 0 <= i < items.len() ==> (#[trigger] items[i]) is Ok,
    ensures
        imported(items) == Seq::new(
            items.len(),
            |i: int| InstructionView::Assert(items[i]->Ok_0@),
        ),
    decreases items.len(),
{
    let all = Seq::new(items.len(), |i: int| InstructionView::Assert(items[i]->Ok_0@));
    if items.len() > 0 {
        let init = items.drop_last();
        assert forall|i: int| 0 <= i < init.len() implies (#[trigger] init[i]) is Ok by {
            assert(init[i] == items[i]);
        }
        law_import_asserts_every_fact(init);
        assert(items[items.len() - 1] is Ok);
        assert(imported(items) =~= all);
    } else {
        assert(imported(items) =~= all);
    }
}

/// Each fact that could be read is asserted once, in order, and nothing else
/// is: what items in a row come to is what the one and then the other comes to.
pub proof fn law_imports_go_item_by_item(
    a: Seq<Result<Artifact, ArtifactError>>,
    b: Seq<Result<Artifact, ArtifactError>>,
    item: Result<Artifact, ArtifactError>,
)
    ensures
        imported(a + b) == imported(a) + imported(b),
        imported(seq![item]) == (match item {
            Ok(artifact) => seq![InstructionView::Assert(artifact@)],
            Err(_) => Seq::empty(),
        }),
    decreases b.len(),
{
    if b.len() == 0 {
        assert(a + b =~= a);
    } else {
        law_imports_go_item_by_item(a, b.drop_last(), item);
        assert((a + b).drop_last() =~= a + b.drop_last());
        assert((a + b).last() == b.last());
    }
    assert(imported(a + b) =~= imported(a) + imported(b));
    let one = seq![item];
    assert(one.drop_last() =~= Seq::empty());
    assert(one.last() == item);
    reveal_with_fuel(imported, 2);
    assert(imported(one) =~= match item {
        Ok(artifact) => seq![InstructionView::Assert(artifact@)],
        Err(_) => Seq::empty(),
    });
}

/// The facts among entries are those of each entry in turn, and an entry holds
/// one just where it was added and decodes.
pub proof fn law_facts_go_entry_by_entry(
    a: Seq<Result<State, ArtifactError>>,
    b: Seq<Result<State, ArtifactError>>,
    entry: Result<State, ArtifactError>,
)
    ensures
        facts_of(a + b) == facts_of(a) + facts_of(b),
        fact_count(a + b) == fact_count(a) + fact_count(b),
        fact_count(a) == facts_of(a).len(),
        facts_of(seq![entry]) == (match entry {
            Ok(State::Added(Ok(artifact))) => seq![artifact@],
            _ => Seq::empty(),
        }),
    decreases a.len(),
{
    if a.len() == 0 {
        assert(a + b =~= b);
    } else {
        law_facts_go_entry_by_entry(a.drop_first(), b, entry);
        assert((a + b).drop_first() =~= a.drop_first() + b);
        assert((a + b)[0] == a[0]);
    }
    assert(facts_of(a + b) =~= facts_of(a) + facts_of(b));
    let one = seq![entry];
    assert(one.drop_first() =~= Seq::empty());
    reveal_with_fuel(facts_of, 2);
    assert(facts_of(one) =~= match entry {
        Ok(State::Added(Ok(artifact))) => seq![artifact@],
        _ => Seq::empty(),
    });
}

/// Where every entry can be read and every write succeeds, the export writes
/// every fact, in the order of the tree, closes, and ends as the closing does.
pub proof fn law_exports_come_to_an_end(
    entries: Seq<Result<State, ArtifactError>>,
    writes: Seq<Result<(), ArtifactError>>,
    close: Result<(), ArtifactError>,
)
    requires
        writes.len() >= fact_count(entries),
        forall|i: int| 0 <= i < writes.len() ==> (#[trigger] writes[i]) is Ok,
        forall|i: int|
            0 <= i < entries.len() ==> (#[trigger] entries[i]) is Ok && !(entries[i]->Ok_0 matches State::Added(
                Err(_),
            )),
    ensures
        export_run(entries, writes, close).closed,
        export_run(entries, writes, close).outcome == close,
        export_run(entries, writes, close).written == facts_of(entries),
    decreases entries.len(),
{
    if entries.len() > 0 {
        let rest = entries.drop_first();
        assert(entries[0] is Ok);
        assert forall|i: int| 0 <= i < rest.len() implies (#[trigger] rest[i]) is Ok && !(
        rest[i]->Ok_0 matches State::Added(Err(_))) by {
            assert(rest[i] == entries[i + 1]);
        }
        if entries[0] matches Ok(State::Removed) {
            law_exports_come_to_an_end(rest, writes, close);
        } else {
            assert(writes[0] is Ok);
            let left = writes.drop_first();
            assert forall|i: int| 0 <= i < left.len() implies (#[trigger] left[i]) is Ok by {
                assert(left[i] == writes[i + 1]);
            }
            law_exports_come_to_an_end(rest, left, close);
        }
    }
}

/// The first entry that cannot be read ends an export whose writes succeed:
/// what came before it is written, the export is not closed, and it fails as
/// that entry does.
pub proof fn law_exports_end_at_the_first_failure(
    entries: Seq<Result<State, ArtifactError>>,
    writes: Seq<Result<(), ArtifactError>>,
    close: Result<(), ArtifactError>,
    i: int,
)
    requires
        writes.len() >= fact_count(entries),
        forall|k: int| 0 <= k < writes.len() ==> (#[trigger] writes[k]) is Ok,
        0 <= i < entries.len(),
        entries[i] is Err || entries[i]->Ok_0 matches State::Added(Err(_)),
        forall|k: int|
            0 <= k < i ==> (#[trigger] entries[k]) is Ok && !(entries[k]->Ok_0 matches State::Added(
                Err(_),
            )),
    ensures
        !export_run(entries, writes, close).closed,
        export_run(entries, writes, close).outcome == Err::<(), ArtifactError>(
            match entries[i] {
                Err(error) => error,
                Ok(state) => state->Added_0->Err_0,
            },
        ),
        export_run(entries, writes, close).written == facts_of(entries.take(i)),
    decreases entries.len(),
{
    let rest = entries.drop_first();
    if i == 0 {
        assert(entries.take(0) =~= Seq::empty());
        assert(export_run(entries, writes, close).written =~= facts_of(entries.take(0)));
    } else {
        assert(entries[0] is Ok);
        assert(rest[i - 1] == entries[i]);
        assert forall|k: int| 0 <= k < i - 1 implies (#[trigger] rest[k]) is Ok && !(
        rest[k]->Ok_0 matches State::Added(Err(_))) by {
            assert(rest[k] == entries[k + 1]);
        }
        assert(entries.take(i).drop_first() =~= rest.take(i - 1));
        assert(entries.take(i)[0] == entries[0]);
        if entries[0] matches Ok(State::Removed) {
            law_exports_end_at_the_first_failure(rest, writes, close, i - 1);
        } else {
            assert(writes[0] is Ok);
            let left = writes.drop_first();
            assert forall|k: int| 0 <= k < left.len() implies (#[trigger] left[k]) is Ok by {
                assert(left[k] == writes[k + 1]);
            }
            law_exports_end_at_the_first_failure(rest, left, close, i - 1);
        }
    }
}

/// The first write that fails ends an export whose entries can be read: the
/// facts up to that one were handed over, the export is not closed, and it
/// fails as that write does.
pub proof fn law_exports_end_at_the_first_refusal(
    entries: Seq<Result<State, ArtifactError>>,
    writes: Seq<Result<(), ArtifactError>>,
    close: Result<(), ArtifactError>,
    i: int,
)
    requires
        0 <= i < fact_count(entries) <= writes.len(),
        writes[i] is Err,
        forall|k: int| 0 <= k < i ==> (#[trigger] writes[k]) is Ok,
        forall|k: int|
            0 <= k < entries.len() ==> (#[trigger] entries[k]) is Ok && !(entries[k]->Ok_0 matches State::Added(
                Err(_),
            )),
    ensures
        !export_run(entries, writes, close).closed,
        export_run(entries, writes, close).outcome == Err::<(), ArtifactError>(writes[i]->Err_0),
        export_run(entries, writes, close).written == facts_of(entries).take(i + 1),
    decreases entries.len(),
{
    let rest = entries.drop_first();
    law_facts_go_entry_by_entry(entries, Seq::empty(), entries[0]);
    law_facts_go_entry_by_entry(rest, Seq::empty(), entries[0]);
    assert(entries[0] is Ok);
    assert forall|k: int| 0 <= k < rest.len() implies (#[trigger] rest[k]) is Ok && !(
    rest[k]->Ok_0 matches State::Added(Err(_))) by {
        assert(rest[k] == entries[k + 1]);
    }
    if entries[0] matches Ok(State::Removed) {
        law_exports_end_at_the_first_refusal(rest, writes, close, i);
    } else if i == 0 {
        assert(export_run(entries, writes, close).written =~= facts_of(entries).take(1));
    } else {
        assert(writes[0] is Ok);
        let left = writes.drop_first();
        assert(left[i - 1] == writes[i]);
        assert forall|k: int| 0 <= k < i - 1 implies (#[trigger] left[k]) is Ok by {
            assert(left[k] == writes[k + 1]);
        }
        law_exports_end_at_the_first_refusal(rest, left, close, i - 1);
        assert(export_run(entries, writes, close).written =~= facts_of(entries).take(i + 1));
    }
}

} // verus!
