//! What holds of queries as a whole.

use crate::artifact::{ArtifactView, ValueView};
use crate::branch::BranchView;
use crate::changes::{asserts, replaces, retracts, PendingView};
use crate::layer::ItemView;
use crate::layer_laws::{all_sorted, law_merge_is_the_union, law_merge_sorted, sorted, states};
use crate::session::{
    all_branch_facts, all_visible, branch_entity, branch_facts, env_of, first_failure, layered,
    metadata_of, scope_facts, OperatorView, QueryLayerView, Source,
};
use crate::tombstones::{
    law_replaced_facts_are_hidden, law_visible, law_visible_is_sorted, tombstones_of, visible,
    FactView, TombstonesView,
};
use vstd::prelude::*;

verus! {

/// What is left of a stream states the facts that it states and that are not
/// hidden.
proof fn lemma_visible_states(
    stream: Seq<ItemView>,
    tombstones: TombstonesView,
    artifact: ArtifactView,
)
    ensures
        states(visible(stream, tombstones), artifact) <==> states(stream, artifact)
            && !tombstones.shadows(artifact.fact()),
{
    let left = visible(stream, tombstones);
    if states(left, artifact) {
        let i = choose|i: int|
            0 <= i < left.len() && (#[trigger] left[i] matches Ok(claim) && claim.artifact
                == artifact);
        assert(left.contains(left[i]));
        law_visible(stream, tombstones, left[i]);
        let k = choose|k: int| 0 <= k < stream.len() && stream[k] == left[i];
        assert(states(stream, artifact));
    }
    if states(stream, artifact) && !tombstones.shadows(artifact.fact()) {
        let i = choose|i: int|
            0 <= i < stream.len() && (#[trigger] stream[i] matches Ok(claim) && claim.artifact
                == artifact);
        assert(stream.contains(stream[i]));
        law_visible(stream, tombstones, stream[i]);
        let k = choose|k: int| 0 <= k < left.len() && left[k] == stream[i];
        assert(states(left, artifact));
    }
}

proof fn lemma_sources_sorted(
    streams: Seq<Seq<ItemView>>,
    overlay: Seq<ItemView>,
    tombstones: TombstonesView,
)
    requires
        all_sorted(streams),
        sorted(overlay),
    ensures
        all_sorted(all_visible(streams, tombstones).push(overlay)),
{
    let all = all_visible(streams, tombstones).push(overlay);
    assert forall|i: int| 0 <= i < all.len() implies sorted(#[trigger] all[i]) by {
        if i < streams.len() {
            assert(sorted(streams[i]));
            law_visible_is_sorted(streams[i], tombstones);
        }
    }
}

/// A query reads facts in the order of one index.
pub proof fn law_queries_read_in_order(
    streams: Seq<Seq<ItemView>>,
    overlay: Seq<ItemView>,
    tombstones: TombstonesView,
)
    requires
        all_sorted(streams),
        sorted(overlay),
    ensures
        sorted(layered(streams, overlay, tombstones)),
{
    lemma_sources_sorted(streams, overlay, tombstones);
    law_merge_sorted(all_visible(streams, tombstones).push(overlay));
}

/// A query reads the facts of its branches that are not hidden, and all that
/// is read beside the branches, hidden or not; and nothing else.
pub proof fn law_queries_read_the_union(
    streams: Seq<Seq<ItemView>>,
    overlay: Seq<ItemView>,
    tombstones: TombstonesView,
    artifact: ArtifactView,
)
    requires
        all_sorted(streams),
        sorted(overlay),
    ensures
        states(layered(streams, overlay, tombstones), artifact) <==> (states(overlay, artifact) || (
        !tombstones.shadows(artifact.fact()) && exists|i: int|
            0 <= i < streams.len() && states(#[trigger] streams[i], artifact))),
{
    let all = all_visible(streams, tombstones).push(overlay);
    lemma_sources_sorted(streams, overlay, tombstones);
    law_merge_is_the_union(all, artifact);
    if states(layered(streams, overlay, tombstones), artifact) {
        let i = choose|i: int| 0 <= i < all.len() && states(#[trigger] all[i], artifact);
        if i < streams.len() {
            lemma_visible_states(streams[i], tombstones, artifact);
        }
    }
    if states(overlay, artifact) {
        assert(states(all[streams.len() as int], artifact));
    }
    if !tombstones.shadows(artifact.fact()) && exists|i: int|
        0 <= i < streams.len() && states(#[trigger] streams[i], artifact) {
        let i = choose|i: int| 0 <= i < streams.len() && states(#[trigger] streams[i], artifact);
        lemma_visible_states(streams[i], tombstones, artifact);
        assert(states(all[i], artifact));
    }
}

/// What pending changes add is read even if they also retract it.
pub proof fn law_added_facts_are_read(
    streams: Seq<Seq<ItemView>>,
    overlay: Seq<ItemView>,
    changes: Seq<PendingView>,
    artifact: ArtifactView,
)
    requires
        all_sorted(streams),
        sorted(overlay),
        states(overlay, artifact),
    ensures
        states(layered(streams, overlay, tombstones_of(changes)), artifact),
{
    law_queries_read_the_union(streams, overlay, tombstones_of(changes), artifact);
}

/// What pending changes retract is not read from the branches.
pub proof fn law_retracted_facts_are_not_read(
    streams: Seq<Seq<ItemView>>,
    overlay: Seq<ItemView>,
    changes: Seq<PendingView>,
    artifact: ArtifactView,
)
    requires
        all_sorted(streams),
        sorted(overlay),
        changes.contains(retracts(artifact.the, artifact.of, artifact.is)),
        !states(overlay, artifact),
    ensures
        !states(layered(streams, overlay, tombstones_of(changes)), artifact),
{
    law_queries_read_the_union(streams, overlay, tombstones_of(changes), artifact);
}

/// A value that a pending change replaces is not read from the branches: a
/// read in the midst of a transaction sees what was written.
pub proof fn law_replaced_facts_are_not_read(
    streams: Seq<Seq<ItemView>>,
    overlay: Seq<ItemView>,
    changes: Seq<PendingView>,
    artifact: ArtifactView,
    replacement: ValueView,
)
    requires
        all_sorted(streams),
        sorted(overlay),
        changes.contains(replaces(artifact.the, artifact.of, replacement)),
        !changes.contains(replaces(artifact.the, artifact.of, artifact.is)),
        !states(overlay, artifact),
    ensures
        !states(layered(streams, overlay, tombstones_of(changes)), artifact),
{
    law_queries_read_the_union(streams, overlay, tombstones_of(changes), artifact);
    let fact = FactView { the: artifact.the, of: artifact.of, is: replacement };
    if !tombstones_of(changes).shadows(artifact.fact()) {
        law_replaced_facts_are_hidden(changes, fact, artifact.fact());
    }
}

/// Joining changes to a branch is querying the branch with the changes.
pub proof fn law_joined_changes_are_pending(branch: BranchView, changes: Seq<PendingView>)
    ensures
        QueryLayerView::of(branch).join(QueryLayerView::nothing().with(changes))
            == QueryLayerView::of(branch).with(changes),
{
    let joined = QueryLayerView::of(branch).join(QueryLayerView::nothing().with(changes));
    assert(joined.branches =~= QueryLayerView::of(branch).branches);
    assert(joined.changes =~= QueryLayerView::of(branch).with(changes).changes);
}

/// It does not matter in which pairs layers are joined.
pub proof fn law_join_is_associative(a: QueryLayerView, b: QueryLayerView, c: QueryLayerView)
    ensures
        a.join(b).join(c) == a.join(b.join(c)),
        a.join(QueryLayerView::nothing()) == a,
        QueryLayerView::nothing().join(a) == a,
{
    assert(a.join(b).join(c) =~= a.join(b.join(c)));
    assert(a.join(QueryLayerView::nothing()) =~= a);
    assert(QueryLayerView::nothing().join(a) =~= a);
}

/// What the repository states about itself comes behind the caller's own
/// changes, and is not among them.
pub proof fn law_metadata_is_beside_the_changes(
    layer: QueryLayerView,
    operator: OperatorView,
    heads: Seq<Option<Seq<char>>>,
)
    ensures
        layer.overlay(operator, heads).take(layer.changes.len() as int) == layer.changes,
        layer.overlay(operator, heads).skip(layer.changes.len() as int) == metadata_of(
            layer.branches,
            operator,
            heads,
        ),
{
    assert(layer.overlay(operator, heads).take(layer.changes.len() as int) =~= layer.changes);
    assert(layer.overlay(operator, heads).skip(layer.changes.len() as int) =~= metadata_of(
        layer.branches,
        operator,
        heads,
    ));
}

/// Whether the changes take nothing away.
pub open spec fn takes_nothing_away(changes: Seq<PendingView>) -> bool {
    forall|i: int| 0 <= i < changes.len() ==> !((#[trigger] changes[i]).change is Retract)
}

/// What the repository states about itself takes nothing away.
pub proof fn law_metadata_takes_nothing_away(
    branches: Seq<BranchView>,
    operator: OperatorView,
    heads: Seq<Option<Seq<char>>>,
)
    ensures
        takes_nothing_away(metadata_of(branches, operator, heads)),
{
    lemma_branch_facts_take_nothing(branches, operator, heads);
    law_session_lists_every_branch(branches, operator);
    let all = all_branch_facts(branches, operator, heads);
    let scope = scope_facts(branches, operator);
    let facts = metadata_of(branches, operator, heads);
    assert forall|i: int| 0 <= i < facts.len() implies !((#[trigger] facts[i]).change
        is Retract) by {
        if i < all.len() {
            assert(facts[i] == all[i]);
        } else if i >= all.len() + 2 {
            assert(facts[i] == scope[i - all.len() - 2]);
        }
    }
}

proof fn lemma_branch_facts_take_nothing(
    branches: Seq<BranchView>,
    operator: OperatorView,
    heads: Seq<Option<Seq<char>>>,
)
    ensures
        takes_nothing_away(all_branch_facts(branches, operator, heads)),
    decreases branches.len(),
{
    if branches.len() > 0 {
        lemma_branch_facts_take_nothing(branches.drop_last(), operator, heads);
        let before = all_branch_facts(branches.drop_last(), operator, heads);
        let last = branch_facts(branches.last(), operator, heads[branches.len() - 1]);
        let all = all_branch_facts(branches, operator, heads);
        assert forall|i: int| 0 <= i < all.len() implies !((#[trigger] all[i]).change
            is Retract) by {
            if i < before.len() {
                assert(all[i] == before[i]);
            } else {
                assert(all[i] == last[i - before.len()]);
            }
        }
    }
}

/// The session lists each of its branches, in order and each beside the
/// others.
pub proof fn law_session_lists_every_branch(branches: Seq<BranchView>, operator: OperatorView)
    ensures
        scope_facts(branches, operator).len() == branches.len(),
        forall|i: int|
            0 <= i < branches.len() ==> #[trigger] scope_facts(branches, operator)[i] == asserts(
                "dialog.session/branch"@,
                "db:session"@,
                ValueView::Entity(branch_entity(branches[i], operator)),
            ),
    decreases branches.len(),
{
    if branches.len() > 0 {
        let init = branches.drop_last();
        law_session_lists_every_branch(init, operator);
        let before = scope_facts(init, operator);
        let all = scope_facts(branches, operator);
        assert forall|i: int| 0 <= i < branches.len() implies #[trigger] all[i] == asserts(
            "dialog.session/branch"@,
            "db:session"@,
            ValueView::Entity(branch_entity(branches[i], operator)),
        ) by {
            if i < before.len() {
                assert(all[i] == before[i]);
                assert(init[i] == branches[i]);
            }
        }
    }
}

/// Stating something to a layer keeps all that the layer held: the changes come
/// behind those that were there, and the branches stay. Statements add up, in
/// the order in which they are made.
pub proof fn law_statements_add_up(
    layer: QueryLayerView,
    first: Seq<PendingView>,
    second: Seq<PendingView>,
)
    ensures
        layer.with(first).branches == layer.branches,
        layer.with(first).changes == layer.changes + first,
        layer.with(first).with(second) == layer.with(first + second),
        forall|change: PendingView|
            #![trigger layer.with(first).with(second).changes.contains(change)]
            layer.with(first).with(second).changes.contains(change) <==> (
            layer.changes.contains(change) || first.contains(change) || second.contains(change)),
{
    let all = layer.with(first).with(second).changes;
    assert(all =~= layer.changes + (first + second));
    assert forall|change: PendingView| #![trigger all.contains(change)] all.contains(change) <==> (
    layer.changes.contains(change) || first.contains(change) || second.contains(change)) by {
        lemma_contains_add(layer.changes, first, change);
        lemma_contains_add(layer.changes + first, second, change);
    }
}

proof fn lemma_contains_add<T>(a: Seq<T>, b: Seq<T>, item: T)
    ensures
        (a + b).contains(item) <==> a.contains(item) || b.contains(item),
{
    let all = a + b;
    if all.contains(item) {
        let k = choose|k: int| 0 <= k < all.len() && all[k] == item;
        if k < a.len() {
            assert(a[k] == item);
        } else {
            assert(b[k - a.len()] == item);
        }
    }
    if a.contains(item) {
        let k = choose|k: int| 0 <= k < a.len() && a[k] == item;
        assert(all[k] == item);
    }
    if b.contains(item) {
        let k = choose|k: int| 0 <= k < b.len() && b[k] == item;
        assert(all[a.len() + k] == item);
    }
}

/// A joined layer reads every branch and every change of both layers, those of
/// the first before those of the second.
pub proof fn law_joined_layers_read_both(a: QueryLayerView, b: QueryLayerView)
    ensures
        a.join(b).branches == a.branches + b.branches,
        a.join(b).changes == a.changes + b.changes,
{
}

/// A layer of one branch reads that branch and has no changes; an empty one
/// reads nothing.
pub proof fn law_layers_start_plain(branch: BranchView)
    ensures
        QueryLayerView::of(branch).branches == seq![branch],
        QueryLayerView::of(branch).changes.len() == 0,
        QueryLayerView::nothing().branches.len() == 0,
        QueryLayerView::nothing().changes.len() == 0,
{
}

/// What is stated of branches is what is stated of each of them, one after
/// another.
pub proof fn law_branch_facts_add_up(
    a: Seq<BranchView>,
    b: Seq<BranchView>,
    operator: OperatorView,
    a_heads: Seq<Option<Seq<char>>>,
    b_heads: Seq<Option<Seq<char>>>,
)
    requires
        a_heads.len() == a.len(),
        b_heads.len() == b.len(),
    ensures
        all_branch_facts(a + b, operator, a_heads + b_heads) == all_branch_facts(
            a,
            operator,
            a_heads,
        ) + all_branch_facts(b, operator, b_heads),
    decreases b.len(),
{
    let whole = a + b;
    let heads = a_heads + b_heads;
    if b.len() == 0 {
        assert(whole =~= a);
        assert(heads =~= a_heads);
        assert(all_branch_facts(whole, operator, heads) =~= all_branch_facts(a, operator, a_heads)
            + all_branch_facts(b, operator, b_heads));
    } else {
        let rest = b_heads.drop_last();
        law_branch_facts_add_up(a, b.drop_last(), operator, a_heads, rest);
        assert(whole.drop_last() =~= a + b.drop_last());
        lemma_later_heads(whole.drop_last(), operator, a_heads + rest, heads);
        lemma_later_heads(b.drop_last(), operator, rest, b_heads);
        assert(all_branch_facts(whole, operator, heads) =~= all_branch_facts(a, operator, a_heads)
            + all_branch_facts(b, operator, b_heads));
    }
}

/// Only the entities of the branches' own heads matter.
proof fn lemma_later_heads(
    branches: Seq<BranchView>,
    operator: OperatorView,
    heads: Seq<Option<Seq<char>>>,
    more: Seq<Option<Seq<char>>>,
)
    requires
        branches.len() <= heads.len(),
        branches.len() <= more.len(),
        forall|i: int| 0 <= i < branches.len() ==> #[trigger] heads[i] == more[i],
    ensures
        all_branch_facts(branches, operator, heads) == all_branch_facts(branches, operator, more),
    decreases branches.len(),
{
    if branches.len() > 0 {
        lemma_later_heads(branches.drop_last(), operator, heads, more);
        assert(heads[branches.len() - 1] == more[branches.len() - 1]);
    }
}

/// What one branch states: on the entity of its origin the repository and the
/// profile, on its own entity its name and its origin and, where it has a
/// head, the tree, the depth and the entity of that head.
pub proof fn law_a_branch_states_itself(
    branch: BranchView,
    operator: OperatorView,
    head: Option<Seq<char>>,
)
    ensures
        ({
            let origin = crate::schema::origin_uri(operator.profile, branch.reference.subject);
            let this = crate::schema::branch_uri(origin, branch.name());
            let facts = all_branch_facts(seq![branch], operator, seq![head]);
            &&& facts.len() == (if branch.revision.content is Some {
                7nat
            } else {
                4nat
            })
            &&& facts[0] == replaces(
                "dialog.origin/subject"@,
                origin,
                ValueView::Entity(branch.reference.subject),
            )
            &&& facts[1] == replaces(
                "dialog.origin/profile"@,
                origin,
                ValueView::Entity(operator.profile),
            )
            &&& facts[2] == replaces(
                "dialog.branch/name"@,
                this,
                ValueView::String(branch.name()),
            )
            &&& facts[3] == replaces("dialog.branch/origin"@, this, ValueView::Entity(origin))
            &&& branch.revision.content matches Some(revision) ==> {
                &&& facts[4] == replaces(
                    "dialog.branch/tree"@,
                    this,
                    ValueView::String(crate::encoding::base58_text(revision.tree)),
                )
                &&& facts[5] == replaces(
                    "dialog.branch/edition"@,
                    this,
                    ValueView::UnsignedInt(revision.edition as u128),
                )
                &&& facts[6] == replaces(
                    "dialog.branch/revision"@,
                    this,
                    ValueView::Entity(head->0),
                )
            }
        }),
{
    let one = seq![branch];
    assert(one.drop_last() =~= Seq::empty());
    assert(all_branch_facts(one.drop_last(), operator, seq![head]) =~= Seq::empty());
    assert(one.last() == branch);
    assert(all_branch_facts(one, operator, seq![head]) =~= branch_facts(branch, operator, head));
}

/// Every branch in the scope of a query states itself to the query: all that
/// is stated of the branch alone is stated to the query, and the session lists
/// the branch.
pub proof fn law_every_branch_states_itself(
    branches: Seq<BranchView>,
    operator: OperatorView,
    heads: Seq<Option<Seq<char>>>,
    i: int,
)
    requires
        heads.len() == branches.len(),
        0 <= i < branches.len(),
    ensures
        forall|change: PendingView| #[trigger]
            all_branch_facts(seq![branches[i]], operator, seq![heads[i]]).contains(change)
                ==> metadata_of(branches, operator, heads).contains(change),
        metadata_of(branches, operator, heads).contains(
            replaces(
                "dialog.branch/name"@,
                crate::schema::branch_uri(
                    crate::schema::origin_uri(operator.profile, branches[i].reference.subject),
                    branches[i].name(),
                ),
                ValueView::String(branches[i].name()),
            ),
        ),
        metadata_of(branches, operator, heads).contains(
            asserts(
                "dialog.session/branch"@,
                "db:session"@,
                ValueView::Entity(
                    crate::schema::branch_uri(
                        crate::schema::origin_uri(operator.profile, branches[i].reference.subject),
                        branches[i].name(),
                    ),
                ),
            ),
        ),
{
    let own = all_branch_facts(seq![branches[i]], operator, seq![heads[i]]);
    let facts = all_branch_facts(branches, operator, heads);
    let scope = scope_facts(branches, operator);
    let session = crate::schema::session_statement(
        "db:session"@,
        operator.profile,
        operator.did,
    );
    law_branch_facts_add_up(
        branches.take(i),
        seq![branches[i]],
        operator,
        heads.take(i),
        seq![heads[i]],
    );
    law_branch_facts_add_up(
        branches.take(i) + seq![branches[i]],
        branches.skip(i + 1),
        operator,
        heads.take(i) + seq![heads[i]],
        heads.skip(i + 1),
    );
    assert(branches.take(i) + seq![branches[i]] + branches.skip(i + 1) =~= branches);
    assert(heads.take(i) + seq![heads[i]] + heads.skip(i + 1) =~= heads);
    assert forall|change: PendingView| #[trigger] own.contains(change) implies metadata_of(
        branches,
        operator,
        heads,
    ).contains(change) by {
        let before = all_branch_facts(branches.take(i), operator, heads.take(i));
        let after = all_branch_facts(branches.skip(i + 1), operator, heads.skip(i + 1));
        lemma_contains_add(before, own, change);
        lemma_contains_add(before + own, after, change);
        lemma_contains_add(facts, session, change);
        lemma_contains_add(facts + session, scope, change);
    }
    law_a_branch_states_itself(branches[i], operator, heads[i]);
    assert(own.contains(own[2]));
    law_session_lists_every_branch(branches, operator);
    let listed = scope[i];
    assert(scope.contains(listed));
    lemma_contains_add(facts + session, scope, listed);
}

/// What is stated to a query is what its branches state, who asks, and the
/// branches in its scope; and nothing else.
pub proof fn law_queries_are_told_who_asks(
    branches: Seq<BranchView>,
    operator: OperatorView,
    heads: Seq<Option<Seq<char>>>,
)
    ensures
        ({
            let own = all_branch_facts(branches, operator, heads).len() as int;
            let facts = metadata_of(branches, operator, heads);
            &&& facts.len() == own + 2 + branches.len()
            &&& facts.take(own) == all_branch_facts(branches, operator, heads)
            &&& facts[own] == replaces(
                "dialog.session/profile"@,
                "db:session"@,
                ValueView::Entity(operator.profile),
            )
            &&& facts[own + 1] == replaces(
                "dialog.session/operator"@,
                "db:session"@,
                ValueView::Entity(operator.did),
            )
            &&& forall|i: int|
                0 <= i < branches.len() ==> (#[trigger] facts[own + 2 + i]).the
                    == "dialog.session/branch"@
        }),
        all_branch_facts(Seq::empty(), operator, heads).len() == 0,
{
    let all = all_branch_facts(branches, operator, heads);
    let facts = metadata_of(branches, operator, heads);
    law_session_lists_every_branch(branches, operator);
    let own = all.len() as int;
    assert(facts.take(own) =~= all);
    assert forall|i: int| 0 <= i < branches.len() implies (#[trigger] facts[own + 2 + i]).the
        == "dialog.session/branch"@ by {
        assert(facts[own + 2 + i] == scope_facts(branches, operator)[i]);
    }
}

/// A query is performed on the branches of its layer, on the changes of its
/// layer with what is stated to it behind them, and on what all these hide: a
/// stored fact is hidden where one of them retracts it, or where one replaces
/// what is beside it and none puts it there.
pub proof fn law_queries_are_performed_on_their_layer(
    layer: QueryLayerView,
    operator: OperatorView,
    heads: Seq<Option<Seq<char>>>,
    fact: FactView,
)
    ensures
        ({
            let env = env_of(layer, operator, heads);
            &&& env.branches == layer.branches
            &&& env.changes == layer.changes + metadata_of(layer.branches, operator, heads)
            &&& env.tombstones.shadows(fact) <==> (env.changes.contains(
                retracts(fact.the, fact.of, fact.is),
            ) || (!env.changes.contains(replaces(fact.the, fact.of, fact.is)) && exists|
                is: ValueView,
            | env.changes.contains(#[trigger] replaces(fact.the, fact.of, is))))
        }),
{
    let env = env_of(layer, operator, heads);
    crate::tombstones::law_what_changes_hide(env.changes, fact);
}

/// The failure of a query over streams is that of the first stream that could
/// not be had; where all could, there is none.
pub proof fn law_first_failure_counts(sources: Seq<Source>, i: int)
    ensures
        0 <= i < sources.len() && sources[i] is Err && (forall|j: int|
            0 <= j < i ==> (#[trigger] sources[j]) is Ok) ==> first_failure(sources) == Some(
            sources[i]->Err_0@,
        ),
        (forall|j: int| 0 <= j < sources.len() ==> (#[trigger] sources[j]) is Ok)
            ==> first_failure(sources) is None,
    decreases sources.len(),
{
    if sources.len() > 0 {
        let rest = sources.drop_first();
        law_first_failure_counts(rest, i - 1);
        if 0 < i < sources.len() && forall|j: int| 0 <= j < i ==> (#[trigger] sources[j]) is Ok {
            assert(sources[0] is Ok);
            assert(rest[i - 1] == sources[i]);
            assert forall|j: int| 0 <= j < i - 1 implies (#[trigger] rest[j]) is Ok by {
                assert(rest[j] == sources[j + 1]);
            }
        }
        if forall|j: int| 0 <= j < sources.len() ==> (#[trigger] sources[j]) is Ok {
            assert(sources[0] is Ok);
            assert forall|j: int| 0 <= j < rest.len() implies (#[trigger] rest[j]) is Ok by {
                assert(rest[j] == sources[j + 1]);
            }
        }
    }
}

/// A query over several sorted streams reads each fact once, where each fact
/// has one key.
pub proof fn law_queries_read_facts_once(
    streams: Seq<Seq<ItemView>>,
    overlay: Seq<ItemView>,
    tombstones: TombstonesView,
)
    requires
        streams.len() > 0,
        all_sorted(streams),
        sorted(overlay),
        crate::layer_laws::keyed(all_visible(streams, tombstones).push(overlay)),
    ensures
        crate::layer_laws::distinct(layered(streams, overlay, tombstones)),
{
    lemma_sources_sorted(streams, overlay, tombstones);
    crate::layer_laws::law_merge_states_facts_once(
        all_visible(streams, tombstones).push(overlay),
    );
}

} // verus!
