//! Queries over branches and pending changes.
//!
//! A query reads the facts of all its branches, as the pending changes will
//! leave them, together with what the changes add and with what the
//! repository states about itself.

use crate::branch::{Branch, BranchView};
use crate::changes::{Changes, PendingView, Statement};
use crate::encoding::{base58, base58_text};
use crate::error::{ArtifactError, ArtifactErrorView, AuthorityError};
use crate::identity::{Did, Entity};
use crate::layer::{merge_grouped, merged, reversed, stream_view, Item, ItemView};
use crate::plain::{opt_view, views, Plain};
use crate::schema;
use crate::schema::{
    branch_revision_statement, branch_statement, branch_uri, origin_statement, origin_uri,
    session_branch_statement, session_statement, DidExt,
};
use crate::tombstones::{
    filter_tombstones, tombstones_from, tombstones_of, visible, Tombstones, TombstonesView,
};
use vstd::prelude::*;

verus! {

/// Who asks: an operator acting for a profile.
#[derive(Clone, Debug, PartialEq, Eq)]
pub struct Operator {
    /// The profile.
    pub profile: Did,
    /// The operator.
    pub did: Did,
}

/// What an [`Operator`] holds.
#[verifier::ext_equal]
pub struct OperatorView {
    pub profile: Seq<char>,
    pub did: Seq<char>,
}

impl View for Operator {
    type V = OperatorView;

    open spec fn view(&self) -> OperatorView {
        OperatorView { profile: self.profile@, did: self.did@ }
    }
}

/// What a branch states about itself: its origin, its name, and its current
/// revision if it has one.
#[derive(Clone, Debug, PartialEq, Eq)]
pub struct BranchMetadata {
    /// The origin.
    pub origin: schema::Origin,
    /// The branch.
    pub branch: schema::Branch,
    /// The current revision.
    pub revision: Option<schema::BranchRevision>,
}

impl Statement for BranchMetadata {
    open spec fn statement(&self) -> Seq<PendingView> {
        self.origin.statement() + self.branch.statement() + (match self.revision {
            Some(revision) => revision.statement(),
            None => Seq::empty(),
        })
    }

    fn assert_into(&self, changes: &mut Changes) {
        self.origin.assert_into(changes);
        self.branch.assert_into(changes);
        if let Some(revision) = &self.revision {
            revision.assert_into(changes);
        }
        assert(changes@ =~= old(changes)@ + self.statement());
    }
}

/// The entity of a branch for whoever asks.
pub open spec fn branch_entity(branch: BranchView, operator: OperatorView) -> Seq<char> {
    branch_uri(origin_uri(operator.profile, branch.of()), branch.name())
}

/// What is stated of a branch, where `head` is the entity of its head.
pub open spec fn branch_facts(
    branch: BranchView,
    operator: OperatorView,
    head: Option<Seq<char>>,
) -> Seq<PendingView> {
    let origin = origin_uri(operator.profile, branch.of());
    let this = branch_entity(branch, operator);
    origin_statement(origin, branch.of(), operator.profile) + branch_statement(
        this,
        branch.name(),
        origin,
    ) + (match branch.head() {
        Some(revision) => branch_revision_statement(
            this,
            base58_text(revision.tree),
            revision.edition as u128,
            head->0,
        ),
        None => Seq::empty(),
    })
}

impl Branch {
    /// What the branch states about itself to whoever asks, where `head` is
    /// the entity of its head.
    pub fn metadata(&self, operator: &Operator, head: &Option<Entity>) -> (result: BranchMetadata)
        requires
            self@.head() is Some ==> head is Some,
        ensures
            result.branch.this@ == branch_entity(self@, operator@),
            result.statement() == branch_facts(self@, operator@, opt_view(*head)),
    {
        let origin = schema::Origin::new(operator.profile.copy(), self.of().copy());
        let branch = schema::Branch::new(&origin, self.name());
        let revision = match (&self.revision.content, head) {
            (Some(revision), Some(entity)) => Some(
                schema::BranchRevision {
                    this: branch.this.copy(),
                    tree: schema::branch::Tree(base58(revision.tree.hash().as_slice())),
                    edition: schema::branch::Edition(revision.edition.0 as u128),
                    revision: schema::branch::Revision(entity.copy()),
                },
            ),
            _ => None,
        };
        let result = BranchMetadata { origin, branch, revision };
        assert(result.statement() =~= branch_facts(self@, operator@, opt_view(*head)));
        result
    }
}

/// What is stated of several branches, where `heads` are the entities of
/// their heads.
pub open spec fn all_branch_facts(
    branches: Seq<BranchView>,
    operator: OperatorView,
    heads: Seq<Option<Seq<char>>>,
) -> Seq<PendingView>
    decreases branches.len(),
{
    if branches.len() == 0 {
        Seq::empty()
    } else {
        all_branch_facts(branches.drop_last(), operator, heads) + branch_facts(
            branches.last(),
            operator,
            heads[branches.len() - 1],
        )
    }
}

/// What is stated of the branches in the scope of the session.
pub open spec fn scope_facts(
    branches: Seq<BranchView>,
    operator: OperatorView,
) -> Seq<PendingView>
    decreases branches.len(),
{
    if branches.len() == 0 {
        Seq::empty()
    } else {
        scope_facts(branches.drop_last(), operator) + session_branch_statement(
            "db:session"@,
            branch_entity(branches.last(), operator),
        )
    }
}

/// What is stated to a query over the branches.
pub open spec fn metadata_of(
    branches: Seq<BranchView>,
    operator: OperatorView,
    heads: Seq<Option<Seq<char>>>,
) -> Seq<PendingView> {
    all_branch_facts(branches, operator, heads) + session_statement(
        "db:session"@,
        operator.profile,
        operator.did,
    ) + scope_facts(branches, operator)
}

/// The views of branches.
pub open spec fn branches_view(branches: Seq<&Branch>) -> Seq<BranchView> {
    Seq::new(branches.len(), |i: int| branches[i]@)
}

/// The views of the entities of heads.
pub open spec fn heads_view(heads: Seq<Option<Entity>>) -> Seq<Option<Seq<char>>> {
    Seq::new(heads.len(), |i: int| opt_view(heads[i]))
}

/// Whether there is an entity for each head.
pub open spec fn heads_known(
    branches: Seq<BranchView>,
    heads: Seq<Option<Seq<char>>>,
) -> bool {
    &&& heads.len() == branches.len()
    &&& forall|i: int|
        0 <= i < branches.len() && (#[trigger] branches[i]).head() is Some ==> heads[i] is Some
}

/// What a query reads: branches, none of them before the others, and pending
/// changes.
#[derive(Clone)]
pub struct QueryLayer<'a> {
    /// The branches.
    pub branches: Vec<&'a Branch>,
    /// The pending changes.
    pub changes: Changes,
}

/// What a [`QueryLayer`] holds.
#[verifier::ext_equal]
pub struct QueryLayerView {
    pub branches: Seq<BranchView>,
    pub changes: Seq<PendingView>,
}

impl QueryLayerView {
    /// A layer that reads nothing.
    pub open spec fn nothing() -> QueryLayerView {
        QueryLayerView { branches: Seq::empty(), changes: Seq::empty() }
    }

    /// A layer that reads one branch.
    pub open spec fn of(branch: BranchView) -> QueryLayerView {
        QueryLayerView { branches: seq![branch], changes: Seq::empty() }
    }

    /// With more changes.
    pub open spec fn with(self, changes: Seq<PendingView>) -> QueryLayerView {
        QueryLayerView { changes: self.changes + changes, ..self }
    }

    /// Both layers.
    pub open spec fn join(self, other: QueryLayerView) -> QueryLayerView {
        QueryLayerView {
            branches: self.branches + other.branches,
            changes: self.changes + other.changes,
        }
    }

    /// All that is read beside the branches.
    pub open spec fn overlay(
        self,
        operator: OperatorView,
        heads: Seq<Option<Seq<char>>>,
    ) -> Seq<PendingView> {
        self.changes + metadata_of(self.branches, operator, heads)
    }
}

impl<'a> View for QueryLayer<'a> {
    type V = QueryLayerView;

    open spec fn view(&self) -> QueryLayerView {
        QueryLayerView { branches: branches_view(self.branches@), changes: self.changes@ }
    }
}

impl<'a> Default for QueryLayer<'a> {
    fn default() -> (result: QueryLayer<'a>)
        ensures
            result@ == QueryLayerView::nothing(),
    {
        let result = QueryLayer { branches: Vec::new(), changes: Changes::new() };
        assert(result@ =~= QueryLayerView::nothing());
        result
    }
}

impl<'a> QueryLayer<'a> {
    /// A layer that reads nothing.
    pub fn new() -> (result: QueryLayer<'a>)
        ensures
            result@ == QueryLayerView::nothing(),
    {
        QueryLayer::default()
    }

    /// A layer that reads one branch.
    pub fn from_branch(branch: &'a Branch) -> (result: QueryLayer<'a>)
        ensures
            result@ == QueryLayerView::of(branch@),
    {
        let mut branches: Vec<&'a Branch> = Vec::new();
        branches.push(branch);
        let result = QueryLayer { branches, changes: Changes::new() };
        assert(result@ =~= QueryLayerView::of(branch@));
        result
    }

    /// A layer that reads changes alone.
    pub fn from_changes(changes: Changes) -> (result: QueryLayer<'a>)
        ensures
            result@ == QueryLayerView::nothing().with(changes@),
    {
        let result = QueryLayer { branches: Vec::new(), changes };
        assert(result@ =~= QueryLayerView::nothing().with(changes@));
        result
    }

    /// Adds what states `statement` to the pending changes.
    pub fn with<S: Statement>(self, statement: S) -> (result: QueryLayer<'a>)
        ensures
            result@ == self@.with(statement.statement()),
            result@.branches == self@.branches,
            result@.changes == self@.changes + statement.statement(),
    {
        let mut changes = self.changes;
        statement.assert_into(&mut changes);
        QueryLayer { branches: self.branches, changes }
    }

    /// Adds what another layer reads.
    pub fn join(self, other: QueryLayer<'a>) -> (result: QueryLayer<'a>)
        ensures
            result@ == self@.join(other@),
    {
        let mut branches = self.branches;
        let mut more = other.branches;
        branches.append(&mut more);
        let mut changes = self.changes;
        changes.extend(&other.changes);
        let result = QueryLayer { branches, changes };
        assert(result@ =~= self@.join(other@));
        result
    }

    /// The branches.
    pub fn branches(&self) -> (result: &[&'a Branch])
        ensures
            branches_view(result@) == self@.branches,
    {
        self.branches.as_slice()
    }

    /// The pending changes, without what the repository states about itself.
    pub fn changes(&self) -> (result: &Changes)
        ensures
            result@ == self@.changes,
    {
        &self.changes
    }

    /// What the repository states about itself to whoever asks, where `heads`
    /// are the entities of the heads of the branches.
    pub fn metadata(&self, operator: &Operator, heads: &Vec<Option<Entity>>) -> (result: Changes)
        requires
            heads_known(self@.branches, heads_view(heads@)),
        ensures
            result@ == metadata_of(self@.branches, operator@, heads_view(heads@)),
    {
        let ghost all = self@.branches;
        let ghost known = heads_view(heads@);
        let mut changes = Changes::new();
        let mut entities: Vec<Entity> = Vec::new();
        let mut i: usize = 0;
        assert(changes@ =~= all_branch_facts(all.take(0), operator@, known));
        while i < self.branches.len()
            invariant
                i <= self.branches@.len(),
                all == self@.branches,
                known == heads_view(heads@),
                heads_known(all, known),
                changes@ == all_branch_facts(all.take(i as int), operator@, known),
                entities@.len() == i,
                forall|j: int|
                    0 <= j < i ==> (#[trigger] entities@[j])@ == branch_entity(all[j], operator@),
            decreases self.branches@.len() - i,
        {
            assert(all[i as int] == self.branches@[i as int]@);
            assert(known[i as int] == opt_view(heads@[i as int]));
            let metadata = self.branches[i].metadata(operator, &heads[i]);
            assert(all.take(i + 1).drop_last() =~= all.take(i as int));
            metadata.assert_into(&mut changes);
            entities.push(metadata.branch.this);
            i += 1;
        }
        assert(all.take(i as int) =~= all);
        let session = schema::Session {
            this: schema::Session::entity(),
            profile: schema::session::Profile(operator.profile.this()),
            operator: schema::session::Operator(operator.did.this()),
        };
        session.assert_into(&mut changes);
        let ghost stated = changes@;
        let mut k: usize = 0;
        assert(stated + scope_facts(all.take(0), operator@) =~= stated);
        while k < entities.len()
            invariant
                k <= entities@.len(),
                entities@.len() == all.len(),
                forall|j: int|
                    0 <= j < all.len() ==> (#[trigger] entities@[j])@ == branch_entity(
                        all[j],
                        operator@,
                    ),
                changes@ == stated + scope_facts(all.take(k as int), operator@),
            decreases entities@.len() - k,
        {
            let membership = schema::SessionBranch {
                this: schema::Session::entity(),
                branch: schema::session::Branch(entities[k].copy()),
            };
            membership.assert_into(&mut changes);
            proof {
                let before = all.take(k as int);
                assert(all.take(k + 1).drop_last() =~= before);
                assert(stated + scope_facts(before, operator@) + membership.statement() =~= stated
                    + (scope_facts(before, operator@) + membership.statement()));
            }
            k += 1;
        }
        assert(all.take(k as int) =~= all);
        changes
    }

    /// All that is read beside the branches: the pending changes and what the
    /// repository states about itself.
    pub fn overlay(&self, operator: &Operator, heads: &Vec<Option<Entity>>) -> (result: Changes)
        requires
            heads_known(self@.branches, heads_view(heads@)),
        ensures
            result@ == self@.overlay(operator@, heads_view(heads@)),
    {
        let mut overlay = self.changes.copy();
        overlay.extend(&self.metadata(operator, heads));
        overlay
    }

    /// Readies a query over this layer.
    pub fn select<Q>(&self, query: Q) -> (result: SelectQuery<'a, Q>)
        ensures
            result.layer@ == self@,
            result.query == query,
    {
        let mut branches: Vec<&'a Branch> = Vec::new();
        for i in 0..self.branches.len()
            invariant
                branches@ == self.branches@.take(i as int),
        {
            branches.push(self.branches[i]);
            assert(branches@ =~= self.branches@.take(i + 1));
        }
        assert(branches@ =~= self.branches@);
        SelectQuery { layer: QueryLayer { branches, changes: self.changes.copy() }, query }
    }
}

impl Branch {
    /// A query over the branch.
    pub fn query(&self) -> (result: QueryLayer<'_>)
        ensures
            result@ == QueryLayerView::of(self@),
    {
        QueryLayer::from_branch(self)
    }

    /// A query over the branch with what states `statement`.
    pub fn with<S: Statement>(&self, statement: S) -> (result: QueryLayer<'_>)
        ensures
            result@ == QueryLayerView::of(self@).with(statement.statement()),
    {
        self.query().with(statement)
    }

    /// Readies a query over the branch.
    pub fn select<Q>(&self, query: Q) -> (result: SelectQuery<'_, Q>)
        ensures
            result.layer@ == QueryLayerView::of(self@),
            result.query == query,
    {
        self.query().select(query)
    }
}

/// A query that is ready to be performed.
pub struct SelectQuery<'a, Q> {
    /// What the query reads.
    pub layer: QueryLayer<'a>,
    /// The query.
    pub query: Q,
}

impl<'a, Q> SelectQuery<'a, Q> {
    /// Sets up what the query reads for whoever asks, where `heads` are the
    /// entities of the heads of the branches. Where it is not known who asks,
    /// the query fails.
    pub fn prepare(
        self,
        authority: Result<Operator, AuthorityError>,
        heads: &Vec<Option<Entity>>,
    ) -> (result: Result<(QueryEnv<'a>, Q), ArtifactError>)
        requires
            heads_known(self.layer@.branches, heads_view(heads@)),
        ensures
            match authority {
                Err(error) => result matches Err(failure) && failure@ == unidentified(error),
                Ok(operator) => result matches Ok((env, query)) && env@ == env_of(
                    self.layer@,
                    operator@,
                    heads_view(heads@),
                ) && query == self.query,
            },
    {
        let operator = match authority {
            Ok(operator) => operator,
            Err(error) => {
                return Err(identify_failure(&error));
            },
        };
        let overlay = self.layer.overlay(&operator, heads);
        let tombstones = tombstones_from(&overlay);
        Ok((QueryEnv::new(self.layer.branches, overlay, tombstones), self.query))
    }
}

/// How a query fails where it is not known who asks.
pub open spec fn unidentified(error: AuthorityError) -> ArtifactErrorView {
    ArtifactErrorView::Storage("identify: "@ + error.0@)
}

fn identify_failure(error: &AuthorityError) -> (result: ArtifactError)
    ensures
        result@ == unidentified(*error),
{
    let mut message = "identify: ".to_owned();
    message.append(error.0.as_str());
    ArtifactError::Storage(message)
}

/// What a query is performed on: branches, all that is read beside them, and
/// what that hides of the branches.
#[derive(Clone)]
pub struct QueryEnv<'a> {
    /// The branches.
    pub branches: Vec<&'a Branch>,
    /// What is read beside them.
    pub changes: Changes,
    /// What is hidden of the branches.
    pub tombstones: Tombstones,
}

/// What a [`QueryEnv`] holds.
#[verifier::ext_equal]
pub struct QueryEnvView {
    pub branches: Seq<BranchView>,
    pub changes: Seq<PendingView>,
    pub tombstones: TombstonesView,
}

/// What a query over the layer is performed on.
pub open spec fn env_of(
    layer: QueryLayerView,
    operator: OperatorView,
    heads: Seq<Option<Seq<char>>>,
) -> QueryEnvView {
    QueryEnvView {
        branches: layer.branches,
        changes: layer.overlay(operator, heads),
        tombstones: tombstones_of(layer.overlay(operator, heads)),
    }
}

impl<'a> View for QueryEnv<'a> {
    type V = QueryEnvView;

    open spec fn view(&self) -> QueryEnvView {
        QueryEnvView {
            branches: branches_view(self.branches@),
            changes: self.changes@,
            tombstones: self.tombstones@,
        }
    }
}

/// The streams of branches without what is hidden of them.
pub open spec fn all_visible(
    streams: Seq<Seq<ItemView>>,
    tombstones: TombstonesView,
) -> Seq<Seq<ItemView>> {
    Seq::new(streams.len(), |i: int| visible(streams[i], tombstones))
}

/// What a query reads of the streams of its branches and of the stream of
/// what is read beside them.
pub open spec fn layered(
    streams: Seq<Seq<ItemView>>,
    overlay: Seq<ItemView>,
    tombstones: TombstonesView,
) -> Seq<ItemView> {
    merged(all_visible(streams, tombstones).push(overlay))
}

/// A stream that was asked for.
pub type Source = Result<Vec<Item>, ArtifactError>;

/// The first of the streams that could not be had.
pub open spec fn first_failure(sources: Seq<Source>) -> Option<ArtifactErrorView>
    decreases sources.len(),
{
    if sources.len() == 0 {
        None
    } else {
        match sources[0] {
            Err(error) => Some(error@),
            Ok(_) => first_failure(sources.drop_first()),
        }
    }
}

/// The views of the streams that could be had.
pub open spec fn sources_view(sources: Seq<Source>) -> Seq<Seq<ItemView>> {
    Seq::new(sources.len(), |i: int| stream_view(sources[i]->Ok_0@))
}

impl<'a> QueryEnv<'a> {
    /// A query is performed on branches, on what is read beside them, and on
    /// what that hides of the branches.
    pub fn new(
        branches: Vec<&'a Branch>,
        changes: Changes,
        tombstones: Tombstones,
    ) -> (result: QueryEnv<'a>)
        ensures
            result@ == (QueryEnvView {
                branches: branches_view(branches@),
                changes: changes@,
                tombstones: tombstones@,
            }),
    {
        QueryEnv { branches, changes, tombstones }
    }

    /// Reads the streams of the branches, in their order, and then that of
    /// what is read beside them. Facts are hidden in the branches only: what
    /// the changes add is there whatever they take away. The first stream that
    /// could not be had is the failure of the whole.
    pub fn execute(&self, branches: Vec<Source>, overlay: Source) -> (result: Source)
        ensures
            match (first_failure(branches@), overlay) {
                (Some(error), _) => result matches Err(failure) && failure@ == error,
                (None, Err(error)) => result matches Err(failure) && failure@ == error@,
                (None, Ok(overlay)) => result matches Ok(items) && stream_view(items@) == layered(
                    sources_view(branches@),
                    stream_view(overlay@),
                    self@.tombstones,
                ),
            },
    {
        let ghost all = branches@;
        let ghost tombstones = self@.tombstones;
        let mut rest = reversed(branches);
        let mut streams: Vec<Vec<Item>> = Vec::new();
        assert(all.skip(0) =~= all);
        while rest.len() > 0
            invariant
                all == branches@,
                tombstones == self.tombstones@,
                rest@.len() <= all.len(),
                streams@.len() == all.len() - rest@.len(),
                rest@ == all.skip(all.len() - rest@.len()).reverse(),
                first_failure(all) == first_failure(all.skip(all.len() - rest@.len())),
                forall|j: int|
                    0 <= j < streams@.len() ==> stream_view((#[trigger] streams@[j])@) == visible(
                        stream_view(all[j]->Ok_0@),
                        tombstones,
                    ),
            decreases rest@.len(),
        {
            let ghost k = all.len() - rest@.len();
            let ghost left = all.skip(k);
            if let Some(source) = rest.pop() {
                assert(source == left[0]);
                assert(left.drop_first() =~= all.skip(k + 1));
                assert(rest@ =~= all.skip(k + 1).reverse());
                match source {
                    Err(error) => {
                        return Err(error);
                    },
                    Ok(stream) => {
                        streams.push(filter_tombstones(stream, &self.tombstones));
                    },
                }
            }
        }
        match overlay {
            Err(error) => Err(error),
            Ok(overlay) => {
                streams.push(overlay);
                proof {
                    let given = all_visible(sources_view(all), tombstones).push(
                        stream_view(overlay@),
                    );
                    assert(crate::layer::streams_view(streams@) =~= given);
                }
                Ok(merge_grouped(streams))
            },
        }
    }
}

impl Branch {
    /// The remote that a query may read blocks from that are not held here:
    /// that of the default upstream, if it is on one.
    pub fn query_remote(&self) -> (result: Option<String>)
        ensures
            opt_view(result) == (match self@.default_upstream() {
                Some(upstream) => match upstream.target {
                    crate::upstream::Target::Remote { remote, .. } => Some(remote),
                    crate::upstream::Target::Local { .. } => None,
                },
                None => None,
            }),
    {
        match self.upstream() {
            Some(crate::upstream::Upstream::Remote { remote, .. }) => Some(remote),
            _ => None,
        }
    }
}

/// A query on a branch as a transaction leaves it: the branch and the changes
/// of the transaction so far.
pub struct TransactionQuery<'a> {
    /// The branch.
    pub branch: &'a Branch,
    /// The changes.
    pub changes: Changes,
}

impl<'a> TransactionQuery<'a> {
    /// A query on the branch as the changes leave it.
    pub fn new(branch: &'a Branch, changes: &Changes) -> (result: TransactionQuery<'a>)
        ensures
            result.branch@ == branch@,
            result.changes@ == changes@,
    {
        TransactionQuery { branch, changes: changes.copy() }
    }

    /// Readies a query.
    pub fn select<Q>(self, query: Q) -> (result: TransactionSelectQuery<'a, Q>)
        ensures
            result.branch@ == self.branch@,
            result.changes@ == self.changes@,
            result.query == query,
    {
        TransactionSelectQuery { branch: self.branch, changes: self.changes, query }
    }
}

/// A query in a transaction that is ready to be performed.
pub struct TransactionSelectQuery<'a, Q> {
    /// The branch.
    pub branch: &'a Branch,
    /// The changes.
    pub changes: Changes,
    /// The query.
    pub query: Q,
}

impl<'a, Q> TransactionSelectQuery<'a, Q> {
    /// Sets up what the query reads for whoever asks, where `heads` holds the
    /// entity of the head of the branch. It is what a query over the branch
    /// with the same changes reads.
    pub fn prepare(
        self,
        authority: Result<Operator, AuthorityError>,
        heads: &Vec<Option<Entity>>,
    ) -> (result: Result<(QueryEnv<'a>, Q), ArtifactError>)
        requires
            heads_known(seq![self.branch@], heads_view(heads@)),
        ensures
            match authority {
                Err(error) => result matches Err(failure) && failure@ == unidentified(error),
                Ok(operator) => result matches Ok((env, query)) && env@ == env_of(
                    QueryLayerView::of(self.branch@).with(self.changes@),
                    operator@,
                    heads_view(heads@),
                ) && query == self.query,
            },
    {
        let operator = match authority {
            Ok(operator) => operator,
            Err(error) => {
                return Err(identify_failure(&error));
            },
        };
        let layer = QueryLayer::from_branch(self.branch).with(self.changes);
        let overlay = layer.overlay(&operator, heads);
        let tombstones = tombstones_from(&overlay);
        let mut branches: Vec<&'a Branch> = Vec::new();
        branches.push(self.branch);
        let env = QueryEnv::new(branches, overlay, tombstones);
        assert(branches_view(branches@) =~= seq![self.branch@]);
        Ok((env, self.query))
    }
}

} // verus!
