//! Pulling: taking over what another branch has gained.
//!
//! A pull has two phases. The first chooses the upstream, learns its head and
//! works out the merged revision; it writes no cell. The second moves the
//! head and notes what was synced. Each step takes what the outside world
//! answered, decides, and says what is to be done next.

use super::{branch_name, Branch, BranchReference, BranchReferenceView, BranchView};
use crate::error::{
    ArtifactError, AuthorityError, EditError, LookupError, PullError, SealError, TreeError,
};
use crate::memory::{Checkpoint, Version};
use crate::plain::{opt_view, views, Plain};
use crate::revision::{
    empty_tree, merge_revision, record_of, RecordView, Revision, RevisionRecord, RevisionView,
    SkipLink, SkipLinkView, TreeReference,
};
use crate::session::{branch_entity, Operator};
use crate::upstream::{find, upsert, Target, Upstream, UpstreamView};
use vstd::prelude::*;

verus! {

/// A pull into a branch.
pub struct Pull<'a> {
    /// The branch that is pulled into.
    pub branch: &'a Branch,
    /// What is pulled from, where it is not the default.
    pub from: Option<Upstream>,
}

/// The upstream that a pull is about: the default, or else the entry for the
/// given one, or else the given one as it is. A branch cannot pull from
/// itself, nor from a default that it does not have.
pub open spec fn chosen(branch: BranchView, from: Option<UpstreamView>) -> Option<UpstreamView> {
    match from {
        None => branch.default_upstream(),
        Some(target) => if target.target == (Target::Local { branch: branch.name() }) {
            None
        } else {
            match find(branch.upstreams(), target.target) {
                Some(entry) => Some(entry),
                None => Some(target),
            }
        },
    }
}

impl Branch {
    /// A pull from what the branch tracks by default.
    pub fn pull(&self) -> (result: Pull<'_>)
        ensures
            result.target() == self@,
            result.source() is None,
    {
        Pull { branch: self, from: None }
    }
}

impl<'a> Pull<'a> {
    /// The branch that is pulled into.
    pub open spec fn target(self) -> BranchView {
        self.branch@
    }

    /// What is pulled from, where it is not the default.
    pub open spec fn source(self) -> Option<UpstreamView> {
        opt_view(self.from)
    }

    /// Pulls from the given branch instead of the default. If it is tracked,
    /// the pull starts at the tree of the last sync; else it starts at the
    /// empty tree, and the branch is tracked from then on.
    pub fn from(self, source: Upstream) -> (result: Pull<'a>)
        ensures
            result.target() == self.target(),
            result.source() == Some(source@),
    {
        Pull { branch: self.branch, from: Some(source) }
    }

    /// Chooses the upstream.
    pub fn select(self) -> (result: Result<Selected<'a>, PullError>)
        ensures
            match result {
                Ok(selected) => selected.target() == self.target() && chosen(
                    self.target(),
                    self.source(),
                ) == Some(selected.upstream@),
                Err(PullError::BranchHasNoUpstream { branch }) => self.source() is None
                    && self.target().default_upstream() is None && branch@ == self.target().name(),
                Err(PullError::UpstreamIsItself { branch }) => self.source() is Some
                    && self.source()->0.target == (Target::Local { branch: self.target().name() })
                    && branch@ == self.target().name(),
                Err(_) => false,
            },
            result is Ok <==> chosen(self.target(), self.source()) is Some,
    {
        let branch = self.branch;
        let upstreams = branch.upstreams();
        let upstream = match self.from {
            None => match upstreams.default_upstream() {
                Some(upstream) => upstream.copy(),
                None => {
                    return Err(
                        PullError::BranchHasNoUpstream { branch: branch.name().to_owned() },
                    );
                },
            },
            Some(target) => {
                let itself = match &target {
                    Upstream::Local { branch: name, .. } => {
                        let own = branch.name().to_owned();
                        *name == own
                    },
                    Upstream::Remote { .. } => false,
                };
                if itself {
                    return Err(PullError::UpstreamIsItself { branch: branch.name().to_owned() });
                }
                match upstreams.find(&target) {
                    Some(entry) => entry.copy(),
                    None => target,
                }
            },
        };
        Ok(Selected { branch, upstream })
    }
}

/// A pull whose upstream is chosen. The head of the upstream is to be looked
/// up.
pub struct Selected<'a> {
    /// The branch that is pulled into.
    pub branch: &'a Branch,
    /// The upstream.
    pub upstream: Upstream,
}

impl<'a> Selected<'a> {
    /// The branch that is pulled into.
    pub open spec fn target(self) -> BranchView {
        self.branch@
    }

    /// Goes on with the head of the upstream. Without one there is nothing
    /// to pull.
    pub fn received(
        self,
        head: Result<Option<Revision>, LookupError>,
    ) -> (result: Result<Option<Received<'a>>, PullError>)
        ensures
            match head {
                Err(error) => result == Err::<Option<Received<'a>>, PullError>(error.pull_error()),
                Ok(None) => result matches Ok(None),
                Ok(Some(revision)) => result matches Ok(Some(received)) && received.target()
                    == self.target() && received.upstream@ == self.upstream@ && received.revision@
                    == revision@,
            },
    {
        match head {
            Err(error) => Err(error.in_pull()),
            Ok(None) => Ok(None),
            Ok(Some(revision)) => Ok(
                Some(Received { branch: self.branch, upstream: self.upstream, revision }),
            ),
        }
    }
}

/// A pull that knows the head of its upstream. The head was minted elsewhere,
/// so its signature is to be checked before anything else is done with it.
pub struct Received<'a> {
    /// The branch that is pulled into.
    pub branch: &'a Branch,
    /// The upstream.
    pub upstream: Upstream,
    /// Its head.
    pub revision: Revision,
}

impl<'a> Received<'a> {
    /// The branch that is pulled into.
    pub open spec fn target(self) -> BranchView {
        self.branch@
    }

    /// Goes on with what came of checking the signature. A head that is not
    /// signed by its issuer is rejected. Where the upstream has not moved
    /// since the last sync, there is nothing to pull.
    pub fn verified(
        self,
        verdict: Result<(), ArtifactError>,
    ) -> (result: Result<Option<Rebase>, PullError>)
        ensures
            match verdict {
                Err(error) => result == Err::<Option<Rebase>, PullError>(
                    PullError::Artifact(error),
                ),
                Ok(()) => if self.upstream@.tree == self.revision@.tree {
                    result matches Ok(None)
                } else {
                    result matches Ok(Some(rebase)) && rebase@ == (RebaseView {
                        reference: self.target().reference,
                        head: self.target().revision.version,
                        local: self.target().head(),
                        upstream: self.upstream@,
                        revision: self.revision@,
                    })
                },
            },
    {
        match verdict {
            Err(error) => Err(PullError::Artifact(error)),
            Ok(()) => {
                if self.upstream.tree().same(&self.revision.tree) {
                    Ok(None)
                } else {
                    let head = self.branch.revision.checkpoint();
                    let local = self.branch.revision();
                    Ok(
                        Some(
                            Rebase {
                                reference: self.branch.reference.copy(),
                                head,
                                local,
                                upstream: self.upstream,
                                revision: self.revision,
                            },
                        ),
                    )
                }
            },
        }
    }
}

/// A pull whose local changes are to be replayed on the tree of the upstream:
/// those between [`base`](Self::base) and [`local_tree`](Self::local_tree), on
/// the tree of [`revision`](Self::revision).
pub struct Rebase {
    /// The branch that is pulled into.
    pub reference: BranchReference,
    /// The state of the head that the merge is made from.
    pub head: Checkpoint,
    /// The head.
    pub local: Option<Revision>,
    /// The upstream.
    pub upstream: Upstream,
    /// The head of the upstream.
    pub revision: Revision,
}

/// What a [`Rebase`] holds.
#[verifier::ext_equal]
pub struct RebaseView {
    pub reference: BranchReferenceView,
    pub head: Option<Seq<u8>>,
    pub local: Option<RevisionView>,
    pub upstream: UpstreamView,
    pub revision: RevisionView,
}

impl RebaseView {
    /// What is to be noted of the upstream: it is synced at its head's tree.
    pub open spec fn sync(self) -> UpstreamView {
        self.upstream.with_tree(self.revision.tree)
    }

    /// The pull with the given revision as the new head.
    pub open spec fn merged(self, new_revision: RevisionView) -> MergedView {
        MergedView {
            reference: self.reference,
            head: self.head,
            new_revision,
            sync: self.sync(),
            base: self.upstream.tree,
        }
    }

    /// Whether the head of the upstream becomes the new head as it is: where
    /// the replayed changes add nothing to its tree, and where there is no
    /// head yet.
    pub open spec fn adopts(self, merged_tree: Seq<u8>) -> bool {
        merged_tree == self.revision.tree || self.local is None
    }
}

impl View for Rebase {
    type V = RebaseView;

    open spec fn view(&self) -> RebaseView {
        RebaseView {
            reference: self.reference@,
            head: self.head@,
            local: opt_view(self.local),
            upstream: self.upstream@,
            revision: self.revision@,
        }
    }
}

impl Rebase {
    /// The tree of the last sync, which the local changes start from.
    pub fn base(&self) -> (result: TreeReference)
        ensures
            result@ == self@.upstream.tree,
    {
        *self.upstream.tree()
    }

    /// The tree of the head, which the local changes lead to.
    pub fn local_tree(&self) -> (result: TreeReference)
        ensures
            result@ == (match self@.local {
                Some(revision) => revision.tree,
                None => empty_tree(),
            }),
    {
        match &self.local {
            Some(revision) => revision.tree,
            None => TreeReference::default(),
        }
    }

    /// Goes on with the tree that came of replaying the local changes.
    pub fn integrated(
        self,
        merged_tree: Result<TreeReference, TreeError>,
    ) -> (result: Result<Integrated, PullError>)
        ensures
            match merged_tree {
                Err(error) => result == Err::<Integrated, PullError>(PullError::Tree(error)),
                Ok(merged_tree) => match result {
                    Ok(Integrated::Adopted(merged)) => self@.adopts(merged_tree@) && merged@
                        == self@.merged(self@.revision),
                    Ok(Integrated::Diverged(diverged)) => !self@.adopts(merged_tree@)
                        && diverged@ == self@,
                    Err(_) => false,
                },
            },
            merged_tree is Ok ==> (result matches Ok(Integrated::Adopted(_)) <==> self@.local
                is None || merged_tree->Ok_0@ == self@.revision.tree),
    {
        let merged_tree = match merged_tree {
            Ok(merged_tree) => merged_tree,
            Err(error) => {
                return Err(PullError::Tree(error));
            },
        };
        if merged_tree.same(&self.revision.tree) {
            return Ok(Integrated::Adopted(self.adopt()));
        }
        let integrated = match self.local {
            None => Integrated::Adopted(
                Rebase {
                    reference: self.reference,
                    head: self.head,
                    local: None,
                    upstream: self.upstream,
                    revision: self.revision,
                }.adopt(),
            ),
            Some(local) => Integrated::Diverged(
                Diverged {
                    reference: self.reference,
                    head: self.head,
                    local,
                    upstream: self.upstream,
                    revision: self.revision,
                },
            ),
        };
        Ok(integrated)
    }

    fn adopt(self) -> (result: Merged)
        ensures
            result@ == self@.merged(self@.revision),
    {
        let base = *self.upstream.tree();
        let tree = self.revision.tree;
        Merged {
            reference: self.reference,
            head: self.head,
            new_revision: self.revision,
            sync: self.upstream.with_tree(tree),
            base,
        }
    }
}

/// What came of replaying the local changes.
pub enum Integrated {
    /// The head of the upstream is the new head.
    Adopted(Merged),
    /// Both sides have something of their own.
    Diverged(Diverged),
}

/// A pull that joins two histories. Who merges is to be found out.
pub struct Diverged {
    /// The branch that is pulled into.
    pub reference: BranchReference,
    /// The state of the head that the merge is made from.
    pub head: Checkpoint,
    /// The head.
    pub local: Revision,
    /// The upstream.
    pub upstream: Upstream,
    /// The head of the upstream.
    pub revision: Revision,
}

impl View for Diverged {
    type V = RebaseView;

    open spec fn view(&self) -> RebaseView {
        RebaseView {
            reference: self.reference@,
            head: self.head@,
            local: Some(self.local@),
            upstream: self.upstream@,
            revision: self.revision@,
        }
    }
}

/// The merge revision of two heads on a branch, before its tree is known. It
/// belongs to the repository of the branch, also where the heads were taken
/// over from another one.
pub open spec fn minted(
    local: RevisionView,
    upstream: RevisionView,
    branch: BranchReferenceView,
    issuer: Seq<char>,
    profile: Seq<char>,
) -> RevisionView {
    RevisionView {
        subject: branch.subject,
        ..merge_revision(
            local,
            upstream,
            empty_tree(),
            branch_name(branch.space),
            issuer,
            profile,
        )
    }
}

impl Diverged {
    /// Mints the merge revision for whoever merges, and its record. The
    /// record lists both heads as parents. It has no skip links: a leap over
    /// a merge would miss what entered through its other parent.
    pub fn identified(
        self,
        authority: Result<Operator, AuthorityError>,
    ) -> (result: Result<Minted, PullError>)
        requires
            authority is Ok ==> self@.local->0.edition < u64::MAX && self@.revision.edition
                < u64::MAX,
        ensures
            match authority {
                Err(error) => result == Err::<Minted, PullError>(PullError::Authority(error)),
                Ok(operator) => result matches Ok(next) && next@.rebase == self@ && next@.revision
                    == minted(
                    self@.local->0,
                    self@.revision,
                    self@.reference,
                    operator@.did,
                    operator@.profile,
                ) && next@.record == record_of(
                    next@.revision,
                    seq![self@.local->0.version(), self@.revision.version()],
                    Seq::empty(),
                ),
            },
    {
        let operator = match authority {
            Ok(operator) => operator,
            Err(error) => {
                return Err(PullError::Authority(error));
            },
        };
        let mut revision = self.local.merge(
            &self.revision,
            TreeReference::default(),
            self.reference.name(),
            operator.did,
            operator.profile,
        );
        revision.subject = self.reference.subject();
        let mut parents: Vec<crate::revision::Version> = Vec::new();
        parents.push(self.local.version());
        parents.push(self.revision.version());
        let skips: Vec<SkipLink> = Vec::new();
        assert(views(parents@) =~= seq![self@.local->0.version(), self@.revision.version()]);
        assert(views(skips@) =~= Seq::<SkipLinkView>::empty());
        let record = revision.record(parents, skips);
        Ok(
            Minted {
                reference: self.reference,
                head: self.head,
                local: self.local,
                upstream: self.upstream,
                upstream_revision: self.revision,
                revision,
                record,
            },
        )
    }
}

/// A pull whose merge revision is minted. Its record is to be signed and put
/// in the merged tree.
pub struct Minted {
    /// The branch that is pulled into.
    pub reference: BranchReference,
    /// The state of the head that the merge is made from.
    pub head: Checkpoint,
    /// The head.
    pub local: Revision,
    /// The upstream.
    pub upstream: Upstream,
    /// The head of the upstream.
    pub upstream_revision: Revision,
    /// The merge revision, whose tree is not known yet.
    pub revision: Revision,
    /// Its record.
    pub record: RevisionRecord,
}

/// What a [`Minted`] holds.
#[verifier::ext_equal]
pub struct MintedView {
    pub rebase: RebaseView,
    pub revision: RevisionView,
    pub record: RecordView,
}

impl View for Minted {
    type V = MintedView;

    open spec fn view(&self) -> MintedView {
        MintedView {
            rebase: RebaseView {
                reference: self.reference@,
                head: self.head@,
                local: Some(self.local@),
                upstream: self.upstream@,
                revision: self.upstream_revision@,
            },
            revision: self.revision@,
            record: self.record@,
        }
    }
}

impl Minted {
    /// Goes on with the signature of the record, which is then complete.
    pub fn attested(
        self,
        signature: Result<Vec<u8>, SealError>,
    ) -> (result: Result<Minted, PullError>)
        ensures
            match signature {
                Err(error) => result == Err::<Minted, PullError>(error.pull_error()),
                Ok(signature) => result matches Ok(next) && next@ == (MintedView {
                    record: RecordView { signature: signature@, ..self@.record },
                    ..self@
                }),
            },
    {
        let signature = match signature {
            Ok(signature) => signature,
            Err(error) => {
                return Err(error.in_pull());
            },
        };
        let mut record = self.record;
        record.signature = signature;
        Ok(
            Minted {
                reference: self.reference,
                head: self.head,
                local: self.local,
                upstream: self.upstream,
                upstream_revision: self.upstream_revision,
                revision: self.revision,
                record,
            },
        )
    }

    /// Goes on with the root of the tree that the record was put in. The
    /// revision is then to be signed.
    pub fn rooted(
        self,
        root: Result<TreeReference, EditError>,
    ) -> (result: Result<Minted, PullError>)
        ensures
            match root {
                Err(error) => result == Err::<Minted, PullError>(error.pull_error()),
                Ok(root) => result matches Ok(next) && next@ == (MintedView {
                    revision: RevisionView { tree: root@, ..self@.revision },
                    ..self@
                }),
            },
    {
        let root = match root {
            Ok(root) => root,
            Err(error) => {
                return Err(error.in_pull());
            },
        };
        let mut revision = self.revision;
        revision.tree = root;
        Ok(
            Minted {
                reference: self.reference,
                head: self.head,
                local: self.local,
                upstream: self.upstream,
                upstream_revision: self.upstream_revision,
                revision,
                record: self.record,
            },
        )
    }

    /// Goes on with the signature of the revision, which is the new head.
    pub fn signed(
        self,
        signature: Result<Vec<u8>, AuthorityError>,
    ) -> (result: Result<Merged, PullError>)
        ensures
            match signature {
                Err(error) => result == Err::<Merged, PullError>(PullError::Authority(error)),
                Ok(signature) => result matches Ok(merged) && merged@ == self@.rebase.merged(
                    RevisionView { signature: signature@, ..self@.revision },
                ),
            },
    {
        let signature = match signature {
            Ok(signature) => signature,
            Err(error) => {
                return Err(PullError::Authority(error));
            },
        };
        let mut revision = self.revision;
        revision.signature = signature;
        let base = *self.upstream.tree();
        Ok(
            Merged {
                reference: self.reference,
                head: self.head,
                new_revision: revision,
                sync: self.upstream.with_tree(self.upstream_revision.tree),
                base,
            },
        )
    }
}

/// What the first phase of a pull came to.
pub enum PreparedPull {
    /// There is nothing to pull.
    NoOp,
    /// The branch is to be moved.
    Merged(Merged),
}

/// A merge that is to be the new head, once the blocks of its tree are
/// stored.
pub struct Merged {
    /// The branch that is pulled into.
    pub reference: BranchReference,
    /// The state of the head that the merge was made from.
    pub head: Checkpoint,
    /// The new head.
    pub new_revision: Revision,
    /// What is to be noted of the upstream.
    pub sync: Upstream,
    /// The tree of the last sync that the merge was made from.
    pub base: TreeReference,
}

/// What a [`Merged`] holds.
#[verifier::ext_equal]
pub struct MergedView {
    pub reference: BranchReferenceView,
    pub head: Option<Seq<u8>>,
    pub new_revision: RevisionView,
    pub sync: UpstreamView,
    pub base: Seq<u8>,
}

impl View for Merged {
    type V = MergedView;

    open spec fn view(&self) -> MergedView {
        MergedView {
            reference: self.reference@,
            head: self.head@,
            new_revision: self.new_revision@,
            sync: self.sync@,
            base: self.base@,
        }
    }
}

impl Merged {
    /// Ends the first phase with what came of storing the blocks of the merged
    /// tree.
    pub fn imported(
        self,
        outcome: Result<(), ArtifactError>,
    ) -> (result: Result<PreparedPull, PullError>)
        ensures
            match outcome {
                Err(error) => result == Err::<PreparedPull, PullError>(PullError::Artifact(error)),
                Ok(()) => result matches Ok(PreparedPull::Merged(merged)) && merged@ == self@,
            },
    {
        match outcome {
            Err(error) => Err(PullError::Artifact(error)),
            Ok(()) => Ok(PreparedPull::Merged(self)),
        }
    }
}

/// All that the outside world answers in the first phase of a pull. What a
/// pull does not come to ask for is left unused.
pub struct Replies {
    /// The head of the upstream.
    pub head: Result<Option<Revision>, LookupError>,
    /// Whether that head is signed by its issuer.
    pub verdict: Result<(), ArtifactError>,
    /// The tree that comes of replaying the local changes.
    pub merged_tree: Result<TreeReference, TreeError>,
    /// Who merges.
    pub authority: Result<Operator, AuthorityError>,
    /// The signature of the merge revision's record.
    pub record_signature: Result<Vec<u8>, SealError>,
    /// The root of the merged tree with the record in it.
    pub root: Result<TreeReference, EditError>,
    /// The signature of the merge revision.
    pub signature: Result<Vec<u8>, AuthorityError>,
    /// What came of storing the blocks of the merged tree.
    pub imported: Result<(), ArtifactError>,
}

impl Replies {
    /// The head of the upstream, where there is one.
    pub open spec fn upstream_head(self) -> RevisionView {
        self.head->Ok_0->0@
    }
}

/// What a pull of the head that was found starts from.
pub open spec fn rebase_of(
    branch: BranchView,
    upstream: UpstreamView,
    replies: Replies,
) -> RebaseView {
    RebaseView {
        reference: branch.reference,
        head: branch.revision.version,
        local: branch.head(),
        upstream,
        revision: replies.upstream_head(),
    }
}

/// Whether there is nothing to pull: the upstream has no head, or one that was
/// synced already.
pub open spec fn nothing_new(upstream: UpstreamView, replies: Replies) -> bool {
    replies.head matches Ok(head) && (head matches Some(revision) ==> revision@.tree
        == upstream.tree)
}

/// Whether a pull comes to mint a merge revision: both sides have something of
/// their own.
pub open spec fn mints(branch: BranchView, upstream: UpstreamView, replies: Replies) -> bool {
    &&& replies.head matches Ok(Some(_))
    &&& replies.verdict is Ok
    &&& !nothing_new(upstream, replies)
    &&& replies.merged_tree is Ok
    &&& !rebase_of(branch, upstream, replies).adopts(replies.merged_tree->Ok_0@)
}

/// How the first phase of a pull fails once the upstream is chosen, if it
/// does: with the first failure among what it asks for.
pub open spec fn failure(
    branch: BranchView,
    upstream: UpstreamView,
    replies: Replies,
) -> Option<PullError> {
    if replies.head is Err {
        Some(replies.head->Err_0.pull_error())
    } else if replies.head->Ok_0 is None {
        None
    } else if replies.verdict is Err {
        Some(PullError::Artifact(replies.verdict->Err_0))
    } else if nothing_new(upstream, replies) {
        None
    } else if replies.merged_tree is Err {
        Some(PullError::Tree(replies.merged_tree->Err_0))
    } else if mints(branch, upstream, replies) && replies.authority is Err {
        Some(PullError::Authority(replies.authority->Err_0))
    } else if mints(branch, upstream, replies) && replies.record_signature is Err {
        Some(replies.record_signature->Err_0.pull_error())
    } else if mints(branch, upstream, replies) && replies.root is Err {
        Some(replies.root->Err_0.pull_error())
    } else if mints(branch, upstream, replies) && replies.signature is Err {
        Some(PullError::Authority(replies.signature->Err_0))
    } else if replies.imported is Err {
        Some(PullError::Artifact(replies.imported->Err_0))
    } else {
        None
    }
}

/// What the first phase of a pull comes to, where nothing fails: nothing, or a
/// merge.
pub open spec fn prepared(
    branch: BranchView,
    upstream: UpstreamView,
    replies: Replies,
) -> Option<MergedView> {
    let rebase = rebase_of(branch, upstream, replies);
    if nothing_new(upstream, replies) {
        None
    } else if !mints(branch, upstream, replies) {
        Some(rebase.merged(rebase.revision))
    } else {
        Some(
            rebase.merged(
                RevisionView {
                    tree: replies.root->Ok_0@,
                    signature: replies.signature->Ok_0@,
                    ..minted(
                        branch.head()->0,
                        rebase.revision,
                        branch.reference,
                        replies.authority->Ok_0@.did,
                        replies.authority->Ok_0@.profile,
                    )
                },
            ),
        )
    }
}

/// Whether the heads are of such depth that a merge of them can be deeper.
pub open spec fn mergeable(
    branch: BranchView,
    from: Option<UpstreamView>,
    replies: Replies,
) -> bool {
    chosen(branch, from) matches Some(upstream) && mints(branch, upstream, replies)
        && replies.authority is Ok ==> {
        &&& branch.head()->0.edition < u64::MAX
        &&& replies.upstream_head().edition < u64::MAX
    }
}

impl<'a> Pull<'a> {
    /// The first phase of a pull as a whole, for given replies.
    pub fn prepare(self, replies: Replies) -> (result: Result<PreparedPull, PullError>)
        requires
            mergeable(self.target(), self.source(), replies),
        ensures
            match chosen(self.target(), self.source()) {
                None => match result {
                    Err(PullError::BranchHasNoUpstream { branch }) => self.source() is None
                        && branch@ == self.target().name(),
                    Err(PullError::UpstreamIsItself { branch }) => self.source() is Some && branch@
                        == self.target().name(),
                    _ => false,
                },
                Some(upstream) => match failure(self.target(), upstream, replies) {
                    Some(error) => result == Err::<PreparedPull, PullError>(error),
                    None => match result {
                        Ok(PreparedPull::NoOp) => prepared(self.target(), upstream, replies)
                            is None,
                        Ok(PreparedPull::Merged(merged)) => prepared(
                            self.target(),
                            upstream,
                            replies,
                        ) == Some(merged@),
                        Err(_) => false,
                    },
                },
            },
    {
        let selected = match self.select() {
            Ok(selected) => selected,
            Err(error) => {
                return Err(error);
            },
        };
        let received = match selected.received(replies.head) {
            Ok(Some(received)) => received,
            Ok(None) => {
                return Ok(PreparedPull::NoOp);
            },
            Err(error) => {
                return Err(error);
            },
        };
        let rebase = match received.verified(replies.verdict) {
            Ok(Some(rebase)) => rebase,
            Ok(None) => {
                return Ok(PreparedPull::NoOp);
            },
            Err(error) => {
                return Err(error);
            },
        };
        let diverged = match rebase.integrated(replies.merged_tree) {
            Ok(Integrated::Adopted(merged)) => {
                return merged.imported(replies.imported);
            },
            Ok(Integrated::Diverged(diverged)) => diverged,
            Err(error) => {
                return Err(error);
            },
        };
        let minted = match diverged.identified(replies.authority) {
            Ok(minted) => minted,
            Err(error) => {
                return Err(error);
            },
        };
        let minted = match minted.attested(replies.record_signature) {
            Ok(minted) => minted,
            Err(error) => {
                return Err(error);
            },
        };
        let minted = match minted.rooted(replies.root) {
            Ok(minted) => minted,
            Err(error) => {
                return Err(error);
            },
        };
        match minted.signed(replies.signature) {
            Ok(merged) => merged.imported(replies.imported),
            Err(error) => Err(error),
        }
    }
}

/// A branch that pulled an upstream finds nothing to pull in it until the
/// upstream moves: once the sync is noted, a pull of the same upstream at the
/// same head comes to nothing.
pub proof fn law_pull_again_is_a_no_op(
    before: BranchView,
    after: BranchView,
    upstream: UpstreamView,
    merged: MergedView,
    from: UpstreamView,
    replies: Replies,
    again: Replies,
)
    requires
        chosen(before, Some(from)) == Some(upstream),
        prepared(before, upstream, replies) == Some(merged),
        after.reference == before.reference,
        after.upstreams() == upsert(before.upstreams(), merged.sync),
        again.head matches Ok(Some(_)),
        again.upstream_head().tree == replies.upstream_head().tree,
    ensures
        chosen(after, Some(from)) == Some(merged.sync),
        prepared(after, merged.sync, again) is None,
{
    crate::upstream::law_find_after_upsert(before.upstreams(), merged.sync);
    assert(upstream.target == from.target) by {
        match find(before.upstreams(), from.target) {
            Some(entry) => {
                let i = choose|i: int|
                    crate::upstream::tracked_at(before.upstreams(), from.target, i);
            },
            None => {},
        }
    }
}

/// The same holds of what the branch tracks by default.
pub proof fn law_pull_default_again_is_a_no_op(
    before: BranchView,
    after: BranchView,
    upstream: UpstreamView,
    merged: MergedView,
    replies: Replies,
    again: Replies,
)
    requires
        chosen(before, None) == Some(upstream),
        prepared(before, upstream, replies) == Some(merged),
        after.reference == before.reference,
        after.upstreams() == upsert(before.upstreams(), merged.sync),
        again.head matches Ok(Some(_)),
        again.upstream_head().tree == replies.upstream_head().tree,
    ensures
        chosen(after, None) == Some(merged.sync),
        prepared(after, merged.sync, again) is None,
{
    assert(crate::upstream::tracked_at(before.upstreams(), upstream.target, 0));
    let i = choose|i: int|
        crate::upstream::tracked_at(before.upstreams(), merged.sync.target, i);
    assert(i == 0);
}

/// A branch without a head takes over that of the upstream.
pub proof fn law_first_pull_adopts(
    branch: BranchView,
    upstream: UpstreamView,
    replies: Replies,
)
    requires
        branch.head() is None,
        replies.head is Ok,
        !nothing_new(upstream, replies),
    ensures
        prepared(branch, upstream, replies) matches Some(merged) && merged.new_revision
            == replies.upstream_head(),
{
}

/// Where the local side has nothing of its own, the head of the upstream is
/// taken over as it is.
pub proof fn law_fast_forward_adopts(
    branch: BranchView,
    upstream: UpstreamView,
    replies: Replies,
)
    requires
        replies.head is Ok,
        !nothing_new(upstream, replies),
        replies.merged_tree matches Ok(tree) && tree@ == replies.upstream_head().tree,
    ensures
        prepared(branch, upstream, replies) matches Some(merged) && merged.new_revision
            == replies.upstream_head(),
{
}

/// A merge never goes back: its revision is deeper than both heads.
pub proof fn law_merge_is_deeper(
    branch: BranchView,
    upstream: UpstreamView,
    replies: Replies,
)
    requires
        mints(branch, upstream, replies),
    ensures
        prepared(branch, upstream, replies) matches Some(merged) && merged.new_revision.edition
            > branch.head()->0.edition && merged.new_revision.edition
            > replies.upstream_head().edition && merged.new_revision.cause == seq![
            replies.upstream_head().tree,
        ],
{
}

/// A merge belongs to the repository of its branch, and its lineage is the
/// entity that queries state of the branch, whatever heads it joins.
pub proof fn law_merges_belong_to_their_branch(
    branch: BranchView,
    upstream: UpstreamView,
    replies: Replies,
)
    requires
        mints(branch, upstream, replies),
    ensures
        prepared(branch, upstream, replies) matches Some(merged) && merged.new_revision.subject
            == branch.of() && merged.new_revision.lineage() == branch_entity(
            branch,
            replies.authority->Ok_0@,
        ),
{
}

/// A merge is to be written over the very state of the head that it was made
/// from, and moves the sync from where the merge started to the tree that was
/// merged in.
pub proof fn law_merge_guards_the_head(
    branch: BranchView,
    upstream: UpstreamView,
    replies: Replies,
)
    ensures
        prepared(branch, upstream, replies) matches Some(merged) ==> {
            &&& merged.reference == branch.reference
            &&& merged.head == branch.revision.version
            &&& merged.base == upstream.tree
            &&& merged.sync.target == upstream.target
            &&& merged.sync.tree == replies.upstream_head().tree
        },
{
}

/// Nothing of a head that its issuer did not sign gets into the branch: such a
/// pull fails, whatever else is found.
pub proof fn law_forged_heads_are_rejected(
    branch: BranchView,
    upstream: UpstreamView,
    replies: Replies,
)
    requires
        replies.head matches Ok(Some(_)),
        replies.verdict is Err,
    ensures
        failure(branch, upstream, replies) == Some(
            PullError::Artifact(replies.verdict->Err_0),
        ),
{
}

/// A merge only ever refers to a tree whose blocks are stored.
pub proof fn law_merged_trees_are_stored(
    branch: BranchView,
    upstream: UpstreamView,
    replies: Replies,
)
    requires
        failure(branch, upstream, replies) is None,
        prepared(branch, upstream, replies) is Some,
    ensures
        replies.imported is Ok,
{
}

/// Two sides that both have something of their own are merged, however deep
/// either of them is: where the branch has a head, and replaying its changes on
/// the tree of the upstream gives another tree than that of the upstream, the
/// new head is a revision of its own. Its tree is the merged tree with the
/// record in it, it is one deeper than the deeper of the two heads, names the
/// tree of the upstream as its cause, and is by whoever merges, on the branch
/// and in the repository that is pulled into.
pub proof fn law_divergent_sides_are_merged(
    branch: BranchView,
    upstream: UpstreamView,
    replies: Replies,
)
    requires
        branch.revision.content is Some,
        replies.head matches Ok(Some(_)),
        replies.verdict is Ok,
        replies.head->Ok_0->0@.tree != upstream.tree,
        replies.merged_tree matches Ok(tree) && tree@ != replies.head->Ok_0->0@.tree,
        replies.authority is Ok,
        replies.record_signature is Ok,
        replies.root is Ok,
        replies.signature is Ok,
        replies.imported is Ok,
    ensures
        failure(branch, upstream, replies) is None,
        prepared(branch, upstream, replies) matches Some(merged) && {
            let local = branch.revision.content->0;
            let theirs = replies.head->Ok_0->0@;
            let head = merged.new_revision;
            &&& head.tree == replies.root->Ok_0@
            &&& head.signature == replies.signature->Ok_0@
            &&& head.cause == seq![theirs.tree]
            &&& head.edition > local.edition
            &&& head.edition > theirs.edition
            &&& head.edition == local.edition + 1 || head.edition == theirs.edition + 1
            &&& head.subject == branch.reference.subject
            &&& head.branch == branch.name()
            &&& head.issuer == replies.authority->Ok_0@.did
            &&& head.authority == replies.authority->Ok_0@.profile
        },
{
}

/// The head of the upstream is taken over as it is exactly where there is no
/// head yet, or where replaying the local changes on its tree gives that very
/// tree. Nothing of the branch's own is ever lost to a pull.
pub proof fn law_heads_are_taken_over_only_where_nothing_is_lost(
    branch: BranchView,
    upstream: UpstreamView,
    replies: Replies,
)
    requires
        failure(branch, upstream, replies) is None,
        prepared(branch, upstream, replies) is Some,
    ensures
        prepared(branch, upstream, replies)->0.new_revision == replies.head->Ok_0->0@ <==> (
        branch.revision.content is None || replies.merged_tree->Ok_0@
            == replies.head->Ok_0->0@.tree),
{
}

/// Whether the head of the upstream is taken over hangs on nothing but the
/// trees and on whether there is a head.
pub proof fn law_adopting(rebase: RebaseView, merged_tree: Seq<u8>)
    ensures
        rebase.adopts(merged_tree) <==> (rebase.local is None || merged_tree
            == rebase.revision.tree),
{
}

/// There is nothing to pull just where the upstream has no head, or one whose
/// tree is that of the last sync.
pub proof fn law_pulls_find_what_is_new(
    branch: BranchView,
    upstream: UpstreamView,
    replies: Replies,
)
    requires
        failure(branch, upstream, replies) is None,
    ensures
        prepared(branch, upstream, replies) is None <==> (replies.head->Ok_0 is None
            || replies.head->Ok_0->0@.tree == upstream.tree),
{
}

/// A pull that prepares fails as the first of what it asks for does. It asks
/// who merges, and for signatures and a root, only where both sides have
/// something of their own.
pub proof fn law_failed_pulls_tell_why(
    branch: BranchView,
    upstream: UpstreamView,
    replies: Replies,
)
    ensures
        replies.head matches Err(error) ==> failure(branch, upstream, replies) == Some(
            match error {
                LookupError::OpenBranch(error) => PullError::LoadBranch(
                    crate::error::LoadBranchError::Resolve(error),
                ),
                LookupError::LoadRemote(error) => PullError::LoadRemote(error),
                LookupError::OpenRemoteBranch(error) => PullError::OpenRemoteBranch(error),
                LookupError::FetchRemoteBranch(error) => PullError::FetchRemoteBranch(error),
            },
        ),
        replies.head matches Ok(None) ==> failure(branch, upstream, replies) is None,
        replies.head matches Ok(Some(theirs)) ==> match replies.verdict {
            Err(error) => failure(branch, upstream, replies) == Some(PullError::Artifact(error)),
            Ok(()) => if theirs@.tree == upstream.tree {
                failure(branch, upstream, replies) is None
            } else {
                match replies.merged_tree {
                    Err(error) => failure(branch, upstream, replies) == Some(
                        PullError::Tree(error),
                    ),
                    Ok(tree) => {
                        let own = branch.revision.content is Some && tree@ != theirs@.tree;
                        let known = !own || replies.authority is Ok;
                        let sealed = known && (!own || replies.record_signature is Ok);
                        let rooted = sealed && (!own || replies.root is Ok);
                        let signed = rooted && (!own || replies.signature is Ok);
                        &&& !known ==> failure(branch, upstream, replies) == Some(
                            PullError::Authority(replies.authority->Err_0),
                        )
                        &&& known && !sealed ==> failure(branch, upstream, replies) == Some(
                            match replies.record_signature->Err_0 {
                                SealError::Artifact(error) => PullError::Artifact(error),
                                SealError::Authority(error) => PullError::Authority(error),
                            },
                        )
                        &&& sealed && !rooted ==> failure(branch, upstream, replies) == Some(
                            match replies.root->Err_0 {
                                EditError::Tree(error) => PullError::Tree(error),
                                EditError::Artifact(error) => PullError::Artifact(error),
                            },
                        )
                        &&& rooted && !signed ==> failure(branch, upstream, replies) == Some(
                            PullError::Authority(replies.signature->Err_0),
                        )
                        &&& signed ==> failure(branch, upstream, replies) == (
                        match replies.imported {
                            Err(error) => Some(PullError::Artifact(error)),
                            Ok(()) => None,
                        })
                    },
                }
            },
        },
{
}

/// A pull without a source is about the first of what the branch tracks. One
/// from a given branch starts where that branch was last synced, if it is
/// tracked, and else where the given source says. No branch pulls from itself.
pub proof fn law_pulls_choose_their_upstream(
    branch: BranchView,
    from: Option<UpstreamView>,
    entries: Seq<UpstreamView>,
    i: int,
)
    requires
        entries == (match branch.upstream.content {
            Some(noted) => noted,
            None => Seq::empty(),
        }),
    ensures
        from is None && entries.len() == 0 ==> chosen(branch, from) is None,
        from is None && entries.len() > 0 ==> chosen(branch, from) == Some(entries[0]),
        from matches Some(source) ==> {
            let itself = source.target == (Target::Local { branch: branch.name() });
            &&& itself ==> chosen(branch, from) is None
            &&& !itself && 0 <= i < entries.len() && entries[i].target == source.target && (
            forall|j: int| 0 <= j < i ==> (#[trigger] entries[j]).target != source.target)
                ==> chosen(branch, from) == Some(entries[i])
            &&& !itself && (forall|j: int|
                0 <= j < entries.len() ==> (#[trigger] entries[j]).target != source.target)
                ==> chosen(branch, from) == Some(source)
        },
{
    if let Some(source) = from {
        if 0 <= i < entries.len() && entries[i].target == source.target && (forall|j: int|
            0 <= j < i ==> (#[trigger] entries[j]).target != source.target) {
            crate::upstream::law_find_is_the_first(entries, source.target, i);
        }
        if forall|j: int|
            0 <= j < entries.len() ==> (#[trigger] entries[j]).target != source.target {
            crate::upstream::law_find_is_exhaustive(entries, source.target);
        }
    }
}

/// A pull can be performed wherever the two heads have successors.
pub proof fn law_pulls_can_be_performed(
    branch: BranchView,
    from: Option<UpstreamView>,
    replies: Replies,
)
    requires
        branch.revision.content matches Some(head) ==> head.edition < u64::MAX,
        replies.head matches Ok(Some(head)) ==> head@.edition < u64::MAX,
    ensures
        mergeable(branch, from, replies),
{
}

} // verus!
