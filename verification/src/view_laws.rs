//! What contracts see of values: all that they hold.

use crate::artifact::{Artifact, Claim, Value, ValueView};
use crate::branch::pull::{Diverged, Merged, Minted, Rebase};
use crate::branch::transfer::Exported;
use crate::branch::Branch;
use crate::changes::{Change, ChangeView, Changes, Instruction, InstructionView, Pending, Statement};
use crate::error::{
    ArtifactError, ArtifactErrorView, AuthorityError, EvaluationError, EvaluationErrorView,
};
use crate::identity::Entity;
use crate::layer::{item_view, stream_view, streams_view, Item};
use crate::memory::{Cell, Checkpoint};
use crate::overlay::{Binding, Projection, Scan, Term, TermView};
use crate::plain::{opt_view, views};
use crate::revision::{Edition, Origin, Revision, RevisionRecord, SkipLink, TreeReference, Version};
use crate::rules::{Discovery, RuleCache, Selector};
use crate::schema;
use crate::schema::AsEntity;
use crate::session::{
    branches_view, heads_view, sources_view, unidentified, Operator, QueryEnv, QueryLayer, Source,
};
use crate::tombstones::{Fact, Tombstones};
use crate::upstream::{Target, Upstream, Upstreams};
use vstd::prelude::*;

verus! {

/// A list is seen item by item, and what may be absent is seen if it is there.
pub proof fn law_lists_are_seen_whole<T: View>(items: Seq<T>, item: Option<T>, i: int)
    ensures
        views(items).len() == items.len(),
        0 <= i < items.len() ==> views(items)[i] == items[i]@,
        item matches Some(value) ==> opt_view(item) == Some(value@),
        item is None ==> opt_view(item) is None,
{
}

/// Streams, branches and the entities of heads are seen item by item.
pub proof fn law_streams_are_seen_whole(
    stream: Seq<Item>,
    streams: Seq<Vec<Item>>,
    branches: Seq<&Branch>,
    heads: Seq<Option<Entity>>,
    sources: Seq<Source>,
    i: int,
)
    ensures
        stream_view(stream).len() == stream.len(),
        0 <= i < stream.len() ==> stream_view(stream)[i] == item_view(stream[i]),
        0 <= i < stream.len() && stream[i] is Ok ==> stream_view(stream)[i] is Ok
            && stream_view(stream)[i]->Ok_0 == stream[i]->Ok_0@,
        0 <= i < stream.len() && stream[i] is Err ==> stream_view(stream)[i] is Err
            && stream_view(stream)[i]->Err_0 == stream[i]->Err_0@,
        streams_view(streams).len() == streams.len(),
        0 <= i < streams.len() ==> streams_view(streams)[i] == stream_view(streams[i]@),
        branches_view(branches).len() == branches.len(),
        0 <= i < branches.len() ==> branches_view(branches)[i] == branches[i]@,
        heads_view(heads).len() == heads.len(),
        0 <= i < heads.len() ==> heads_view(heads)[i] == opt_view(heads[i]),
        sources_view(sources).len() == sources.len(),
        0 <= i < sources.len() && sources[i] is Ok ==> sources_view(sources)[i] == stream_view(
            sources[i]->Ok_0@,
        ),
{
}

/// A revision and its record are seen with all their fields.
pub proof fn law_revisions_are_seen_whole(
    revision: Revision,
    record: RevisionRecord,
    version: Version,
    origin: Origin,
    link: SkipLink,
    tree: TreeReference,
    edition: Edition,
)
    ensures
        revision@.subject == revision.subject@,
        revision@.issuer == revision.issuer@,
        revision@.authority == revision.authority@,
        revision@.branch == revision.branch@,
        revision@.tree == revision.tree@,
        revision@.cause == views(revision.cause@),
        revision@.edition == revision.edition@,
        revision@.signature == revision.signature@,
        record@.lineage == record.lineage@,
        record@.issuer == record.issuer@,
        record@.authority == record.authority@,
        record@.parents == views(record.parents@),
        record@.skips == views(record.skips@),
        record@.signature == record.signature@,
        version@.origin == version.origin@,
        version@.edition == version.edition@,
        origin@.lineage == origin.lineage@,
        origin@.issuer == origin.issuer@,
        link@.origin == link.origin@,
        link@.edition == link.edition@,
        tree@ == tree.0@,
        edition@ == edition.0,
{
}

/// A fact, a claim and a change are seen with all their fields.
pub proof fn law_facts_are_seen_whole(
    artifact: Artifact,
    claim: Claim,
    fact: Fact,
    pending: Pending,
    changes: Changes,
    change: Change,
    instruction: Instruction,
)
    ensures
        artifact@.the == artifact.the@,
        artifact@.of == artifact.of@,
        artifact@.is == artifact.is@,
        artifact@.cause == opt_view(artifact.cause),
        claim@.key == claim.key@,
        claim@.artifact == claim.artifact@,
        fact@.the == fact.the@,
        fact@.of == fact.of@,
        fact@.is == fact.is@,
        pending@.of == pending.of@,
        pending@.the == pending.the@,
        pending@.change == pending.change@,
        changes@ == views(changes.log@),
        changes.statement() == changes@,
        match change {
            Change::Assert(value) => change@ == ChangeView::Assert(value@),
            Change::Replace(value) => change@ == ChangeView::Replace(value@),
            Change::Retract(value) => change@ == ChangeView::Retract(value@),
        },
        match instruction {
            Instruction::Assert(artifact) => instruction@ == InstructionView::Assert(artifact@),
            Instruction::Replace(artifact) => instruction@ == InstructionView::Replace(artifact@),
            Instruction::Retract(artifact) => instruction@ == InstructionView::Retract(artifact@),
        },
{
}

/// A branch is seen with its reference and both its cells, and a cell with its
/// value and its version. What is tracked is seen entry by entry, with the
/// branch and the tree of the last sync.
pub proof fn law_branches_are_seen_whole(
    branch: Branch,
    cell: Cell<Revision>,
    checkpoint: Checkpoint,
    upstream: Upstream,
    upstreams: Upstreams,
)
    ensures
        branch@.reference.subject == branch.reference.subject@,
        branch@.reference.space == branch.reference.space@,
        branch@.revision == branch.revision@,
        branch@.upstream == branch.upstream@,
        cell@.content == opt_view(cell.content),
        cell@.version == opt_view(cell.version),
        checkpoint@ == opt_view(checkpoint.expected),
        upstreams@ == views(upstreams.entries@),
        match upstream {
            Upstream::Local { branch, tree } => upstream@.tree == tree@ && upstream@.target == (
            Target::Local { branch: branch@ }),
            Upstream::Remote { remote, branch, tree } => upstream@.tree == tree@
                && upstream@.target == (Target::Remote { remote: remote@, branch: branch@ }),
        },
{
}

/// A pull is seen with all that it carries from step to step.
pub proof fn law_pulls_are_seen_whole(
    rebase: Rebase,
    diverged: Diverged,
    minted: Minted,
    merged: Merged,
    exported: Exported,
)
    ensures
        rebase@.reference == rebase.reference@,
        rebase@.head == rebase.head@,
        rebase@.local == opt_view(rebase.local),
        rebase@.upstream == rebase.upstream@,
        rebase@.revision == rebase.revision@,
        diverged@.reference == diverged.reference@,
        diverged@.head == diverged.head@,
        diverged@.local == Some(diverged.local@),
        diverged@.upstream == diverged.upstream@,
        diverged@.revision == diverged.revision@,
        minted@.rebase.reference == minted.reference@,
        minted@.rebase.head == minted.head@,
        minted@.rebase.local == Some(minted.local@),
        minted@.rebase.upstream == minted.upstream@,
        minted@.rebase.revision == minted.upstream_revision@,
        minted@.revision == minted.revision@,
        minted@.record == minted.record@,
        merged@.reference == merged.reference@,
        merged@.head == merged.head@,
        merged@.new_revision == merged.new_revision@,
        merged@.sync == merged.sync@,
        merged@.base == merged.base@,
        exported@.written == views(exported.written@),
        exported@.closed == exported.closed,
        exported@.outcome == exported.outcome,
{
}

/// A query is seen with its branches, its changes and what they hide.
pub proof fn law_queries_are_seen_whole(
    layer: QueryLayer,
    env: QueryEnv,
    operator: Operator,
    tombstones: Tombstones,
)
    ensures
        layer@.branches == branches_view(layer.branches@),
        layer@.changes == layer.changes@,
        env@.branches == branches_view(env.branches@),
        env@.changes == env.changes@,
        env@.tombstones == env.tombstones@,
        operator@.profile == operator.profile@,
        operator@.did == operator.did@,
        tombstones@.retracts == views(tombstones.retracts@).to_set(),
        tombstones@.replacements == views(tombstones.replacements@).to_set(),
{
}

/// What is kept of rules, what looks them up and what is built in are seen with
/// all their fields.
pub proof fn law_rules_are_seen_whole(
    cache: RuleCache<u64>,
    discovery: Discovery,
    selector: Selector,
    projection: Projection,
    scan: Scan,
    binding: Binding,
)
    ensures
        cache@.discovery == cache.discovery@,
        cache@.bodies == cache.bodies@,
        discovery@.head == discovery.head@,
        discovery@.entities == views(discovery.entities@),
        selector@.the == opt_view(selector.the),
        selector@.of == opt_view(selector.of),
        selector@.is == opt_view(selector.is),
        projection@.conclusion == projection.conclusion@,
        projection@.scan == projection.scan@,
        projection@.formula == projection.formula,
        projection@.bindings == views(projection.bindings@),
        scan@.the == scan.the@,
        scan@.of == scan.of@,
        scan@.is == scan.is@,
        scan@.cause == scan.cause@,
        scan@.cardinality == scan.cardinality,
        binding@.0 == binding.field@,
        binding@.1 == binding.term@,
{
}

/// What describes the repository states all that it holds.
pub proof fn law_descriptions_state_what_they_hold(
    origin: schema::Origin,
    branch: schema::Branch,
    revision: schema::BranchRevision,
    session: schema::Session,
    listed: schema::SessionBranch,
)
    ensures
        origin.uri() == origin.this@,
        branch.uri() == branch.this@,
        origin.statement() == schema::origin_statement(
            origin.this@,
            origin.subject.0@,
            origin.profile.0@,
        ),
        branch.statement() == schema::branch_statement(
            branch.this@,
            branch.name.0@,
            branch.origin.0@,
        ),
        revision.statement() == schema::branch_revision_statement(
            revision.this@,
            revision.tree.0@,
            revision.edition.0,
            revision.revision.0@,
        ),
        session.statement() == schema::session_statement(
            session.this@,
            session.profile.0@,
            session.operator.0@,
        ),
        listed.statement() == schema::session_branch_statement(listed.this@, listed.branch.0@),
{
}

/// A value is seen as what it holds, and values of different sorts are seen as
/// different.
pub proof fn law_values_are_seen_whole(value: Value, term: Term)
    ensures
        match value {
            Value::Bytes(bytes) => value@ == ValueView::Bytes(bytes@),
            Value::Entity(entity) => value@ == ValueView::Entity(entity@),
            Value::Boolean(boolean) => value@ == ValueView::Boolean(boolean),
            Value::String(string) => value@ == ValueView::String(string@),
            Value::UnsignedInt(number) => value@ == ValueView::UnsignedInt(number),
            Value::SignedInt(number) => value@ == ValueView::SignedInt(number),
            Value::Float(bits) => value@ == ValueView::Float(bits),
            Value::Record(bytes) => value@ == ValueView::Record(bytes@),
            Value::Symbol(attribute) => value@ == ValueView::Symbol(attribute@),
        },
        match term {
            Term::Variable(name) => term@ == TermView::Variable(name@),
            Term::Record(name) => term@ == TermView::Record(name@),
            Term::Constant(value) => term@ == TermView::Constant(value@),
            Term::Blank => term@ == TermView::Blank,
        },
{
}

/// A failure is seen with its sort and with all that it tells.
pub proof fn law_failures_are_seen_whole(
    error: ArtifactError,
    evaluation: EvaluationError,
    authority: AuthorityError,
)
    ensures
        match error {
            ArtifactError::Storage(message) => error@ == ArtifactErrorView::Storage(message@),
            ArtifactError::InvalidSignature(message) => error@
                == ArtifactErrorView::InvalidSignature(message@),
            ArtifactError::Decode(message) => error@ == ArtifactErrorView::Decode(message@),
        },
        match evaluation {
            EvaluationError::Store(message) => evaluation@ == EvaluationErrorView::Store(message@),
        },
        unidentified(authority) == ArtifactErrorView::Storage("identify: "@ + authority.0@),
{
}

} // verus!
