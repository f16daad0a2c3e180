//! Committing: writing changes on top of the head.
//!
//! Each step takes what the outside world answered, decides, and says what is
//! to be done next.

use super::landing::{coherent, lets_write, with_head};
use super::{Branch, BranchReference, BranchView};
use crate::error::{
    ArtifactError, AuthorityError, CommitError, EditError, PublishError, SealError,
};
use crate::identity::Did;
use crate::memory;
use crate::memory::Checkpoint;
use crate::plain::{opt_view, same_opt, views, Plain};
use crate::revision::{
    empty_tree, first_revision, next_revision, record_of, Edition, OriginView, RecordView, Revision,
    RevisionRecord, RevisionView, SkipLink, SkipLinkView, TreeReference, Version, VersionView,
};
use crate::schema;
use crate::schema::{branch_uri, origin_uri};
use crate::session::{branch_entity, Operator, OperatorView};
use crate::upstream::remote_of;
use vstd::prelude::*;

verus! {

impl Branch {
    /// A commit of the changes on top of the head.
    pub fn commit<C>(&self, changes: C) -> (result: Commit<'_, C>)
        ensures
            result.target() == self@,
            result.changes == changes,
            result.head@ == self@.revision.version,
            opt_view(result.base) == self@.head(),
            opt_view(result.remote) == remote_of(self@.upstreams()),
    {
        let upstreams = self.upstreams();
        let remote = match upstreams.remote_name() {
            Some(name) => Some(name.to_owned()),
            None => None,
        };
        Commit {
            branch: self,
            changes,
            head: self.revision.checkpoint(),
            base: self.revision(),
            remote,
        }
    }
}

/// A commit on top of a head. Who commits is to be found out.
pub struct Commit<'a, C> {
    /// The branch.
    pub branch: &'a Branch,
    /// The changes.
    pub changes: C,
    /// The state of the head that the commit builds on.
    pub head: Checkpoint,
    /// The head.
    pub base: Option<Revision>,
    /// The remote that blocks not held here may be read from.
    pub remote: Option<String>,
}

/// The version that a commit on top of `base` has, and that all it writes is
/// tagged with.
pub open spec fn commit_version(
    branch: BranchView,
    base: Option<RevisionView>,
    issuer: Seq<char>,
    profile: Seq<char>,
) -> VersionView {
    VersionView {
        origin: OriginView {
            lineage: branch_uri(origin_uri(profile, branch.of()), branch.name()),
            issuer,
        },
        edition: match base {
            Some(base) => base.edition + 1,
            None => 0,
        },
    }
}

/// What is asked of the tree: to make changes to it.
pub struct Asked<C> {
    /// The root of the tree.
    pub root: TreeReference,
    /// The version that all that is written is tagged with.
    pub version: Version,
    /// The changes.
    pub changes: C,
}

impl<'a, C> Commit<'a, C> {
    /// The branch that is committed to.
    pub open spec fn target(self) -> BranchView {
        self.branch@
    }

    /// The root of the tree that the changes are made to.
    pub fn base_tree(&self) -> (result: TreeReference)
        ensures
            result@ == (match self.base {
                Some(base) => base@.tree,
                None => empty_tree(),
            }),
    {
        match &self.base {
            Some(base) => base.tree,
            None => TreeReference::default(),
        }
    }

    /// Goes on for whoever commits: the changes are to be made to the tree of
    /// the head, tagged with the version of the commit.
    pub fn identified(
        self,
        authority: Result<Operator, AuthorityError>,
    ) -> (result: Result<(Asked<C>, Identified<'a>), CommitError>)
        requires
            authority is Ok ==> (self.base matches Some(base) ==> base@.edition < u64::MAX),
        ensures
            match authority {
                Err(error) => result == Err::<(Asked<C>, Identified<'a>), CommitError>(
                    CommitError::Authority(error),
                ),
                Ok(operator) => result matches Ok((asked, next)) && asked.changes == self.changes
                    && asked.root@ == (match self.base {
                    Some(base) => base@.tree,
                    None => empty_tree(),
                }) && asked.version@ == commit_version(
                    self.target(),
                    opt_view(self.base),
                    operator@.did,
                    operator@.profile,
                ) && next.target() == self.target() && next.head@ == self.head@ && opt_view(
                    next.base,
                ) == opt_view(self.base) && next.issuer@ == operator@.did && next.profile@
                    == operator@.profile,
            },
    {
        let operator = match authority {
            Ok(operator) => operator,
            Err(error) => {
                return Err(CommitError::Authority(error));
            },
        };
        let issuer = operator.did;
        let profile = operator.profile;
        let root = self.base_tree();
        let edition = match &self.base {
            Some(base) => base.edition.successor(),
            None => Edition::genesis(),
        };
        let origin = schema::Origin::new(profile.copy(), self.branch.of().copy());
        let lineage = schema::Branch::new(&origin, self.branch.name()).this;
        let version = Version::new(Revision::origin_of(&lineage, &issuer), edition);
        Ok(
            (
                Asked { root, version, changes: self.changes },
                Identified {
                    branch: self.branch,
                    head: self.head,
                    base: self.base,
                    issuer,
                    profile,
                },
            ),
        )
    }
}

/// A commit whose changes are to be made.
pub struct Identified<'a> {
    /// The branch.
    pub branch: &'a Branch,
    /// The state of the head that the commit builds on.
    pub head: Checkpoint,
    /// The head.
    pub base: Option<Revision>,
    /// The operator that commits.
    pub issuer: Did,
    /// The profile that authorizes the commit.
    pub profile: Did,
}

/// What came of making the changes.
pub enum Applied<'a> {
    /// They left the tree as it was: there is nothing to commit, provided that
    /// the head has not moved.
    Unchanged(Unchanged),
    /// A revision is to be minted.
    Changed(Changed<'a>),
}

impl<'a> Identified<'a> {
    /// The branch that is committed to.
    pub open spec fn target(self) -> BranchView {
        self.branch@
    }

    /// Goes on with whether the changes changed the tree. A branch without a
    /// head gets one even if they did not.
    pub fn applied(
        self,
        changed: Result<bool, EditError>,
    ) -> (result: Result<Applied<'a>, CommitError>)
        ensures
            match changed {
                Err(error) => result == Err::<Applied<'a>, CommitError>(error.commit_error()),
                Ok(changed) => match result {
                    Ok(Applied::Unchanged(unchanged)) => !changed && self.base is Some
                        && unchanged.head@ == self.head@ && unchanged.base@ == self.base->0@,
                    Ok(Applied::Changed(next)) => (changed || self.base is None) && next.target()
                        == self.target() && next.head@ == self.head@ && opt_view(next.base)
                        == opt_view(self.base) && next.issuer@ == self.issuer@ && next.profile@
                        == self.profile@,
                    Err(_) => false,
                },
            },
    {
        let changed = match changed {
            Ok(changed) => changed,
            Err(error) => {
                return Err(error.in_commit());
            },
        };
        if changed {
            return Ok(
                Applied::Changed(
                    Changed {
                        branch: self.branch,
                        head: self.head,
                        base: self.base,
                        issuer: self.issuer,
                        profile: self.profile,
                    },
                ),
            );
        }
        let applied = match self.base {
            Some(base) => Applied::Unchanged(Unchanged { head: self.head, base }),
            None => Applied::Changed(
                Changed {
                    branch: self.branch,
                    head: self.head,
                    base: None,
                    issuer: self.issuer,
                    profile: self.profile,
                },
            ),
        };
        Ok(applied)
    }
}

/// A commit that changes nothing. The version of the head is to be read: if
/// another writer has moved it, the changes may well matter.
pub struct Unchanged {
    /// The state of the head that the commit builds on.
    pub head: Checkpoint,
    /// The head.
    pub base: Revision,
}

impl Unchanged {
    /// Ends the commit with the version that the store holds of the head. The
    /// head is kept if it has not moved, and else the commit fails as one
    /// that lost a race.
    pub fn checked(
        self,
        current: Result<Option<memory::Version>, PublishError>,
    ) -> (result: Result<Revision, CommitError>)
        ensures
            match current {
                Err(error) => result == Err::<Revision, CommitError>(CommitError::Publish(error)),
                Ok(actual) => if opt_view(actual) == self.head@ {
                    result matches Ok(revision) && revision@ == self.base@
                } else {
                    result matches Err(
                        CommitError::Publish(
                            PublishError::VersionMismatch { expected, actual: found },
                        ),
                    ) && opt_view(expected) == self.head@ && opt_view(found) == opt_view(actual)
                },
            },
    {
        match current {
            Err(error) => Err(CommitError::Publish(error)),
            Ok(actual) => {
                if same_opt(&actual, &self.head.expected) {
                    Ok(self.base)
                } else {
                    Err(
                        CommitError::Publish(
                            PublishError::VersionMismatch { expected: self.head.expected, actual },
                        ),
                    )
                }
            },
        }
    }
}

/// A commit whose changes are made. The skip links of its revision are to be
/// worked out from those of the parent.
pub struct Changed<'a> {
    /// The branch.
    pub branch: &'a Branch,
    /// The state of the head that the commit builds on.
    pub head: Checkpoint,
    /// The head.
    pub base: Option<Revision>,
    /// The operator that commits.
    pub issuer: Did,
    /// The profile that authorizes the commit.
    pub profile: Did,
}

/// The revision of a commit, before its tree is known. It belongs to the
/// repository of the branch, also where the head was taken over from another
/// one.
pub open spec fn committed(
    branch: BranchView,
    base: Option<RevisionView>,
    issuer: Seq<char>,
    profile: Seq<char>,
) -> RevisionView {
    match base {
        Some(base) => RevisionView {
            subject: branch.of(),
            ..next_revision(base, empty_tree(), branch.name(), issuer, profile)
        },
        None => first_revision(empty_tree(), branch.of(), branch.name(), issuer, profile),
    }
}

/// The parents of a commit: the head, if there is one.
pub open spec fn parents(base: Option<RevisionView>) -> Seq<VersionView> {
    match base {
        Some(base) => seq![base.version()],
        None => Seq::empty(),
    }
}

/// The record of a commit, before it is signed. The first revision has no
/// skip links.
pub open spec fn committed_record(
    branch: BranchView,
    base: Option<RevisionView>,
    issuer: Seq<char>,
    profile: Seq<char>,
    skips: Seq<SkipLinkView>,
) -> RecordView {
    record_of(
        committed(branch, base, issuer, profile),
        parents(base),
        if base is Some {
            skips
        } else {
            Seq::empty()
        },
    )
}

impl<'a> Changed<'a> {
    /// The branch that is committed to.
    pub open spec fn target(self) -> BranchView {
        self.branch@
    }

    /// The revision that the new one is minted on top of.
    pub fn parent(&self) -> (result: Option<Version>)
        ensures
            opt_view(result) == (match self.base {
                Some(base) => Some(base@.version()),
                None => None,
            }),
    {
        match &self.base {
            Some(base) => Some(base.version()),
            None => None,
        }
    }

    /// Mints the revision and its record. The skip links matter only where
    /// there is a parent.
    pub fn minted(
        self,
        skips: Result<Vec<SkipLink>, EditError>,
    ) -> (result: Result<Minted, CommitError>)
        requires
            self.base matches Some(base) ==> base@.edition < u64::MAX,
        ensures
            if self.base is Some && skips is Err {
                result == Err::<Minted, CommitError>(skips->Err_0.commit_error())
            } else {
                result matches Ok(minted) && minted.reference@ == self.target().reference
                    && minted.head@ == self.head@ && minted.revision@
                    == committed(
                    self.target(),
                    opt_view(self.base),
                    self.issuer@,
                    self.profile@,
                ) && minted.record@ == committed_record(
                    self.target(),
                    opt_view(self.base),
                    self.issuer@,
                    self.profile@,
                    views(skips->Ok_0@),
                )
            },
            result matches Ok(minted) ==> minted.record@.skips == (if self.base is Some {
                views(skips->Ok_0@)
            } else {
                Seq::empty()
            }),
    {
        let mut parents: Vec<Version> = Vec::new();
        let mut leaps: Vec<SkipLink> = Vec::new();
        let revision = match &self.base {
            Some(base) => {
                match skips {
                    Ok(skips) => {
                        leaps = skips;
                    },
                    Err(error) => {
                        return Err(error.in_commit());
                    },
                }
                parents.push(base.version());
                let mut next = base.advance(
                    TreeReference::default(),
                    self.branch.name(),
                    self.issuer,
                    self.profile,
                );
                next.subject = self.branch.of().copy();
                next
            },
            None => Revision::new(
                TreeReference::default(),
                self.branch.of().copy(),
                self.branch.name(),
                self.issuer,
                self.profile,
            ),
        };
        assert(views(parents@) =~= self::parents(opt_view(self.base)));
        assert(self.base is None ==> views(leaps@) =~= Seq::<SkipLinkView>::empty());
        let record = revision.record(parents, leaps);
        let reference = self.branch.reference.copy();
        Ok(Minted { reference, head: self.head, revision, record })
    }
}

/// A commit whose revision is minted. Its record is to be signed and put in
/// the tree.
pub struct Minted {
    /// The branch.
    pub reference: BranchReference,
    /// The state of the head that the commit builds on.
    pub head: Checkpoint,
    /// The revision, whose tree is not known yet.
    pub revision: Revision,
    /// Its record.
    pub record: RevisionRecord,
}

impl Minted {
    /// Goes on with the signature of the record, which is then complete.
    pub fn attested(
        self,
        signature: Result<Vec<u8>, SealError>,
    ) -> (result: Result<Minted, CommitError>)
        ensures
            match signature {
                Err(error) => result == Err::<Minted, CommitError>(error.commit_error()),
                Ok(signature) => result matches Ok(next) && next.reference@ == self.reference@
                    && next.head@ == self.head@
                    && next.revision@ == self.revision@ && next.record@ == (RecordView {
                    signature: signature@,
                    ..self.record@
                }),
            },
    {
        match signature {
            Err(error) => Err(error.in_commit()),
            Ok(signature) => {
                let mut record = self.record;
                record.signature = signature;
                Ok(
                    Minted {
                        reference: self.reference,
                        head: self.head,
                        revision: self.revision,
                        record,
                    },
                )
            },
        }
    }

    /// Goes on with the root of the tree that the record was put in. Its
    /// blocks are then to be stored.
    pub fn rooted(
        self,
        root: Result<TreeReference, EditError>,
    ) -> (result: Result<Rooted, CommitError>)
        ensures
            match root {
                Err(error) => result == Err::<Rooted, CommitError>(error.commit_error()),
                Ok(root) => result matches Ok(next) && next.reference@ == self.reference@
                    && next.head@ == self.head@ && next.revision@
                    == (RevisionView { tree: root@, ..self.revision@ }),
            },
    {
        match root {
            Err(error) => Err(error.in_commit()),
            Ok(root) => {
                let mut revision = self.revision;
                revision.tree = root;
                Ok(Rooted { reference: self.reference, head: self.head, revision })
            },
        }
    }
}

/// A commit whose tree is complete. Its blocks are to be stored before
/// anything refers to them.
pub struct Rooted {
    /// The branch.
    pub reference: BranchReference,
    /// The state of the head that the commit builds on.
    pub head: Checkpoint,
    /// The revision, which is not signed yet.
    pub revision: Revision,
}

impl Rooted {
    /// Goes on with what came of storing the blocks. The revision is then to
    /// be signed.
    pub fn imported(
        self,
        outcome: Result<(), ArtifactError>,
    ) -> (result: Result<Stored, CommitError>)
        ensures
            match outcome {
                Err(error) => result == Err::<Stored, CommitError>(CommitError::Artifact(error)),
                Ok(()) => result matches Ok(next) && next.reference@ == self.reference@
                    && next.head@ == self.head@ && next.revision@
                    == self.revision@,
            },
    {
        match outcome {
            Err(error) => Err(CommitError::Artifact(error)),
            Ok(()) => Ok(
                Stored { reference: self.reference, head: self.head, revision: self.revision },
            ),
        }
    }
}

/// A commit whose blocks are stored. Its revision is to be signed.
pub struct Stored {
    /// The branch.
    pub reference: BranchReference,
    /// The state of the head that the commit builds on.
    pub head: Checkpoint,
    /// The revision, which is not signed yet.
    pub revision: Revision,
}

impl Stored {
    /// Goes on with the signature of the revision, which is to be written over
    /// the head.
    pub fn signed(
        self,
        signature: Result<Vec<u8>, AuthorityError>,
    ) -> (result: Result<Ready, CommitError>)
        ensures
            match signature {
                Err(error) => result == Err::<Ready, CommitError>(CommitError::Authority(error)),
                Ok(signature) => result matches Ok(next) && next.reference@ == self.reference@
                    && next.head@ == self.head@ && next.revision@ == (RevisionView {
                    signature: signature@,
                    ..self.revision@
                }),
            },
    {
        match signature {
            Err(error) => Err(CommitError::Authority(error)),
            Ok(signature) => {
                let mut revision = self.revision;
                revision.signature = signature;
                Ok(Ready { reference: self.reference, head: self.head, revision })
            },
        }
    }
}

/// A commit that is ready to be the new head.
pub struct Ready {
    /// The branch.
    pub reference: BranchReference,
    /// The state of the head that the commit builds on.
    pub head: Checkpoint,
    /// The new head.
    pub revision: Revision,
}

impl Ready {
    /// Ends the commit with what came of writing the head. A write that failed
    /// leaves the branch as it was.
    pub fn published(
        self,
        branch: &mut Branch,
        outcome: Result<memory::Version, PublishError>,
    ) -> (result: Result<Revision, CommitError>)
        requires
            self.reference@ == old(branch)@.reference,
        ensures
            match outcome {
                Err(error) => *final(branch) == *old(branch) && result == Err::<
                    Revision,
                    CommitError,
                >(CommitError::Publish(error)),
                Ok(version) => final(branch)@ == with_head(
                    old(branch)@,
                    self.revision@,
                    version@,
                ) && (result matches Ok(revision) && revision@ == self.revision@),
            },
    {
        match outcome {
            Err(error) => Err(CommitError::Publish(error)),
            Ok(version) => {
                branch.revision.published(self.revision.copy(), version);
                Ok(self.revision)
            },
        }
    }
}

/// All that the outside world answers in a commit. What a commit does not
/// come to ask for is left unused.
pub struct Replies {
    /// Who commits.
    pub authority: Result<Operator, AuthorityError>,
    /// Whether the changes changed the tree.
    pub changed: Result<bool, EditError>,
    /// The version that the store holds of the head.
    pub current: Result<Option<memory::Version>, PublishError>,
    /// The skip links that follow from those of the parent.
    pub skips: Result<Vec<SkipLink>, EditError>,
    /// The signature of the revision's record.
    pub record_signature: Result<Vec<u8>, SealError>,
    /// The root of the tree with the record in it.
    pub root: Result<TreeReference, EditError>,
    /// What came of storing the blocks of that tree.
    pub imported: Result<(), ArtifactError>,
    /// The signature of the revision.
    pub signature: Result<Vec<u8>, AuthorityError>,
    /// What came of writing the head.
    pub outcome: Result<memory::Version, PublishError>,
}

/// Whether a commit changes nothing: the branch has a head, and the changes
/// left its tree as it was.
pub open spec fn is_no_op(branch: BranchView, replies: Replies) -> bool {
    branch.head() is Some && replies.changed == Ok::<bool, EditError>(false)
}

/// How a commit fails before it comes to the head, if it does: with the first
/// failure among what it asks for.
pub open spec fn failure(branch: BranchView, replies: Replies) -> Option<CommitError> {
    if replies.authority is Err {
        Some(CommitError::Authority(replies.authority->Err_0))
    } else if replies.changed is Err {
        Some(replies.changed->Err_0.commit_error())
    } else if is_no_op(branch, replies) {
        None
    } else if branch.head() is Some && replies.skips is Err {
        Some(replies.skips->Err_0.commit_error())
    } else if replies.record_signature is Err {
        Some(replies.record_signature->Err_0.commit_error())
    } else if replies.root is Err {
        Some(replies.root->Err_0.commit_error())
    } else if replies.imported is Err {
        Some(CommitError::Artifact(replies.imported->Err_0))
    } else if replies.signature is Err {
        Some(CommitError::Authority(replies.signature->Err_0))
    } else {
        None
    }
}

/// The new head that a commit comes to, where nothing fails and something is
/// changed.
pub open spec fn new_head(branch: BranchView, replies: Replies) -> RevisionView {
    RevisionView {
        tree: replies.root->Ok_0@,
        signature: replies.signature->Ok_0@,
        ..committed(
            branch,
            branch.head(),
            replies.authority->Ok_0@.did,
            replies.authority->Ok_0@.profile,
        )
    }
}

/// The branch after a commit: with the new head, where nothing failed and
/// something was changed, and else as it was.
pub open spec fn after_commit(branch: BranchView, replies: Replies) -> BranchView {
    if failure(branch, replies) is None && !is_no_op(branch, replies) && replies.outcome is Ok {
        with_head(branch, new_head(branch, replies), replies.outcome->Ok_0@)
    } else {
        branch
    }
}

/// Whether a commit of the changes, for given replies, takes a branch from
/// `before` to `after`, asks `asked` of the tree and comes to `result`.
pub open spec fn performed<C>(
    before: Branch,
    after: Branch,
    changes: C,
    replies: Replies,
    asked: Option<Asked<C>>,
    result: Result<Revision, CommitError>,
) -> bool {
    &&& after@ == after_commit(before@, replies)
    &&& match (replies.authority, asked) {
        (Err(_), None) => true,
        (Ok(operator), Some(asked)) => asked.changes == changes && asked.root@ == before@.tree()
            && asked.version@ == commit_version(
            before@,
            before@.head(),
            operator@.did,
            operator@.profile,
        ),
        _ => false,
    }
    &&& match failure(before@, replies) {
        Some(error) => after == before && result == Err::<Revision, CommitError>(error),
        None => if is_no_op(before@, replies) {
            after == before && match replies.current {
                Err(error) => result == Err::<Revision, CommitError>(CommitError::Publish(error)),
                Ok(actual) => if opt_view(actual) == before@.revision.version {
                    result matches Ok(revision) && Some(revision@) == before@.head()
                } else {
                    result matches Err(
                        CommitError::Publish(
                            PublishError::VersionMismatch { expected, actual: found },
                        ),
                    ) && opt_view(expected) == before@.revision.version && opt_view(found)
                        == opt_view(actual)
                },
            }
        } else {
            match replies.outcome {
                Err(error) => after == before && result == Err::<Revision, CommitError>(
                    CommitError::Publish(error),
                ),
                Ok(_) => result matches Ok(revision) && revision@ == new_head(before@, replies),
            }
        },
    }
}

impl<'a, C> Commit<'a, C> {
    /// A commit as a whole, for given replies: what it asks of the tree, and
    /// the head that the branch has then.
    pub fn perform(branch: &mut Branch, changes: C, replies: Replies) -> (result: (
        Option<Asked<C>>,
        Result<Revision, CommitError>,
    ))
        requires
            replies.authority is Ok ==> (old(branch)@.head() matches Some(head) ==> head.edition
                < u64::MAX),
        ensures
            performed(*old(branch), *final(branch), changes, replies, result.0, result.1),
    {
        let (asked, identified) = match branch.commit(changes).identified(replies.authority) {
            Ok(identified) => identified,
            Err(error) => {
                return (None, Err(error));
            },
        };
        let asked = Some(asked);
        let changed = match identified.applied(replies.changed) {
            Err(error) => {
                return (asked, Err(error));
            },
            Ok(Applied::Unchanged(unchanged)) => {
                return (asked, unchanged.checked(replies.current));
            },
            Ok(Applied::Changed(changed)) => changed,
        };
        let minted = match changed.minted(replies.skips) {
            Ok(minted) => minted,
            Err(error) => {
                return (asked, Err(error));
            },
        };
        let minted = match minted.attested(replies.record_signature) {
            Ok(minted) => minted,
            Err(error) => {
                return (asked, Err(error));
            },
        };
        let rooted = match minted.rooted(replies.root) {
            Ok(rooted) => rooted,
            Err(error) => {
                return (asked, Err(error));
            },
        };
        let stored = match rooted.imported(replies.imported) {
            Ok(stored) => stored,
            Err(error) => {
                return (asked, Err(error));
            },
        };
        let result = match stored.signed(replies.signature) {
            Ok(ready) => ready.published(branch, replies.outcome),
            Err(error) => Err(error),
        };
        (asked, result)
    }
}

/// What a commit writes is tagged with the version of its own revision.
pub proof fn law_changes_are_tagged_with_the_revision(
    branch: BranchView,
    base: Option<RevisionView>,
    issuer: Seq<char>,
    profile: Seq<char>,
)
    ensures
        committed(branch, base, issuer, profile).version() == commit_version(
            branch,
            base,
            issuer,
            profile,
        ),
{
}

/// A commit belongs to the repository of its branch, and its lineage is the
/// entity that queries state of the branch, whatever head it builds on.
pub proof fn law_commits_belong_to_their_branch(
    branch: BranchView,
    base: Option<RevisionView>,
    operator: OperatorView,
)
    ensures
        committed(branch, base, operator.did, operator.profile).subject == branch.of(),
        committed(branch, base, operator.did, operator.profile).lineage() == branch_entity(
            branch,
            operator,
        ),
{
}

/// A commit is deeper than the head that it builds on, and that head is its
/// one parent.
pub proof fn law_commits_advance(
    branch: BranchView,
    replies: Replies,
    skips: Seq<SkipLinkView>,
)
    requires
        branch.head() is Some,
    ensures
        new_head(branch, replies).edition > branch.head()->0.edition,
        new_head(branch, replies).cause == seq![branch.head()->0.tree],
        committed_record(
            branch,
            branch.head(),
            replies.authority->Ok_0@.did,
            replies.authority->Ok_0@.profile,
            skips,
        ).parents == seq![branch.head()->0.version()],
{
}

/// Changes that change nothing leave no trace: the branch stays where it was.
pub proof fn law_empty_commits_keep_the_head(branch: BranchView, replies: Replies)
    requires
        branch.head() is Some,
        replies.changed == Ok::<bool, EditError>(false),
    ensures
        after_commit(branch, replies) == branch,
{
}

/// The first commit establishes the branch, even if it changes nothing.
pub proof fn law_first_commit_is_the_genesis(branch: BranchView, replies: Replies)
    requires
        branch.head() is None,
    ensures
        !is_no_op(branch, replies),
        new_head(branch, replies).edition == 0,
        new_head(branch, replies).cause == Seq::<Seq<u8>>::empty(),
        new_head(branch, replies).subject == branch.of(),
{
}

/// A head only ever refers to a tree whose blocks are stored: where the head
/// has moved, it is at the tree that was stored.
pub proof fn law_committed_trees_are_stored(branch: BranchView, replies: Replies)
    requires
        after_commit(branch, replies) != branch,
    ensures
        replies.imported is Ok,
        after_commit(branch, replies).tree() == replies.root->Ok_0@,
{
}

/// No commit is lost to another: a commit that the store lets take the place
/// of its head was made on top of that head, which is its parent.
pub proof fn law_commits_build_on_what_they_replace(
    branch: BranchView,
    store: memory::CellView<RevisionView>,
    replies: Replies,
    skips: Seq<SkipLinkView>,
)
    requires
        coherent(branch, store),
        lets_write(store, branch.revision.version),
    ensures
        branch.head() == store.content,
        committed_record(
            branch,
            branch.head(),
            replies.authority->Ok_0@.did,
            replies.authority->Ok_0@.profile,
            skips,
        ).parents == parents(store.content),
{
}

/// A commit asks the tree of the head, or the empty tree where there is no
/// head, to make its changes, and tags them with one version: that of the
/// branch for whoever commits, one deeper than the head.
pub proof fn law_commits_ask_for_their_changes<C>(
    before: Branch,
    after: Branch,
    changes: C,
    replies: Replies,
    asked: Option<Asked<C>>,
    result: Result<Revision, CommitError>,
)
    requires
        performed(before, after, changes, replies, asked, result),
    ensures
        asked is Some <==> replies.authority is Ok,
        asked matches Some(asked) ==> {
            &&& asked.changes == changes
            &&& asked.version@.origin.issuer == replies.authority->Ok_0@.did
            &&& asked.version@.origin.lineage == branch_uri(
                origin_uri(replies.authority->Ok_0@.profile, before@.reference.subject),
                before@.name(),
            )
            &&& match before@.revision.content {
                Some(head) => asked.root@ == head.tree && asked.version@.edition == head.edition
                    + 1,
                None => asked.root@ == Seq::new(32, |i: int| 0u8) && asked.version@.edition == 0,
            }
        },
{
}

/// Where nothing fails and something is changed, or the branch has no head
/// yet, the commit is the new head: its tree and its signature are those that
/// were made for it, it is one deeper than the head that it follows and names
/// the tree of that head as its one cause, and it is by whoever commits, on
/// the branch and in the repository that is committed to. What the branch
/// tracks stays as it was.
pub proof fn law_commits_become_the_head<C>(
    before: Branch,
    after: Branch,
    changes: C,
    replies: Replies,
    asked: Option<Asked<C>>,
    result: Result<Revision, CommitError>,
)
    requires
        performed(before, after, changes, replies, asked, result),
        replies.authority is Ok,
        replies.changed is Ok,
        replies.changed->Ok_0 || before@.revision.content is None,
        replies.skips is Ok || before@.revision.content is None,
        replies.record_signature is Ok,
        replies.root is Ok,
        replies.imported is Ok,
        replies.signature is Ok,
        replies.outcome is Ok,
    ensures
        result matches Ok(revision) && {
            let head = revision@;
            &&& after@.revision.content == Some(head)
            &&& after@.revision.version == Some(replies.outcome->Ok_0@)
            &&& after@.reference == before@.reference
            &&& after@.upstream == before@.upstream
            &&& head.tree == replies.root->Ok_0@
            &&& head.signature == replies.signature->Ok_0@
            &&& head.subject == before@.reference.subject
            &&& head.branch == before@.name()
            &&& head.issuer == replies.authority->Ok_0@.did
            &&& head.authority == replies.authority->Ok_0@.profile
            &&& match before@.revision.content {
                Some(base) => head.edition == base.edition + 1 && head.cause == seq![base.tree],
                None => head.edition == 0 && head.cause == Seq::<Seq<u8>>::empty(),
            }
        },
{
}

/// A commit that fails leaves the branch as it was, and fails as the first of
/// what it asks for does.
pub proof fn law_failed_commits_leave_the_branch<C>(
    before: Branch,
    after: Branch,
    changes: C,
    replies: Replies,
    asked: Option<Asked<C>>,
    result: Result<Revision, CommitError>,
)
    requires
        performed(before, after, changes, replies, asked, result),
    ensures
        result is Err ==> after == before,
        replies.authority matches Err(error) ==> result == Err::<Revision, CommitError>(
            CommitError::Authority(error),
        ),
        replies.authority is Ok ==> {
            &&& replies.changed matches Err(EditError::Tree(error)) ==> result == Err::<
                Revision,
                CommitError,
            >(CommitError::Tree(error))
            &&& replies.changed matches Err(EditError::Artifact(error)) ==> result == Err::<
                Revision,
                CommitError,
            >(CommitError::Artifact(error))
        },
        replies.authority is Ok && replies.changed is Ok && (replies.changed->Ok_0
            || before@.revision.content is None) ==> {
            let linked = before@.revision.content is None || replies.skips is Ok;
            let sealed = linked && replies.record_signature is Ok;
            let rooted = sealed && replies.root is Ok;
            let stored = rooted && replies.imported is Ok;
            let signed = stored && replies.signature is Ok;
            &&& !linked ==> match replies.skips->Err_0 {
                EditError::Tree(error) => result == Err::<Revision, CommitError>(
                    CommitError::Tree(error),
                ),
                EditError::Artifact(error) => result == Err::<Revision, CommitError>(
                    CommitError::Artifact(error),
                ),
            }
            &&& linked && !sealed ==> match replies.record_signature->Err_0 {
                SealError::Artifact(error) => result == Err::<Revision, CommitError>(
                    CommitError::Artifact(error),
                ),
                SealError::Authority(error) => result == Err::<Revision, CommitError>(
                    CommitError::Authority(error),
                ),
            }
            &&& sealed && !rooted ==> match replies.root->Err_0 {
                EditError::Tree(error) => result == Err::<Revision, CommitError>(
                    CommitError::Tree(error),
                ),
                EditError::Artifact(error) => result == Err::<Revision, CommitError>(
                    CommitError::Artifact(error),
                ),
            }
            &&& rooted && !stored ==> result == Err::<Revision, CommitError>(
                CommitError::Artifact(replies.imported->Err_0),
            )
            &&& stored && !signed ==> result == Err::<Revision, CommitError>(
                CommitError::Authority(replies.signature->Err_0),
            )
            &&& signed && replies.outcome is Err ==> result == Err::<Revision, CommitError>(
                CommitError::Publish(replies.outcome->Err_0),
            )
        },
{
}

/// Changes that change nothing on a branch with a head leave the branch as it
/// was. The head is given back where the store still holds it, and else the
/// commit fails as one that lost a race.
pub proof fn law_unchanged_commits_check_the_store<C>(
    before: Branch,
    after: Branch,
    changes: C,
    replies: Replies,
    asked: Option<Asked<C>>,
    result: Result<Revision, CommitError>,
)
    requires
        performed(before, after, changes, replies, asked, result),
        before@.revision.content is Some,
        replies.authority is Ok,
        replies.changed == Ok::<bool, EditError>(false),
    ensures
        after == before,
        replies.current matches Err(error) ==> result == Err::<Revision, CommitError>(
            CommitError::Publish(error),
        ),
        replies.current matches Ok(found) ==> {
            let expected = before@.revision.version;
            &&& opt_view(found) == expected ==> (result matches Ok(revision) && Some(revision@)
                == before@.revision.content)
            &&& opt_view(found) != expected ==> (result matches Err(
                CommitError::Publish(PublishError::VersionMismatch { expected: held, actual }),
            ) && opt_view(held) == expected && opt_view(actual) == opt_view(found))
        },
{
}

/// The record of a commit on top of a head holds the very skip links that were
/// worked out from those of that head, in their order. The first revision has
/// none.
#[verifier::spinoff_prover]
pub proof fn law_records_keep_the_skip_links(
    branch: BranchView,
    base: RevisionView,
    issuer: Seq<char>,
    profile: Seq<char>,
    skips: Seq<SkipLinkView>,
)
    ensures
        committed_record(branch, Some(base), issuer, profile, skips).skips == skips,
        committed_record(branch, None, issuer, profile, skips).skips.len() == 0,
{
}

/// The head that a commit follows is its one parent, by its version. The first
/// revision has none.
#[verifier::spinoff_prover]
pub proof fn law_records_keep_the_parent(
    branch: BranchView,
    base: RevisionView,
    issuer: Seq<char>,
    profile: Seq<char>,
    skips: Seq<SkipLinkView>,
)
    ensures
        committed_record(branch, Some(base), issuer, profile, skips).parents == seq![
            base.version(),
        ],
        committed_record(branch, None, issuer, profile, skips).parents.len() == 0,
{
}

/// The record of a commit is by whoever commits, on the branch that is
/// committed to, and is signed only once it is complete.
pub proof fn law_records_tell_who_commits(
    branch: BranchView,
    base: Option<RevisionView>,
    issuer: Seq<char>,
    profile: Seq<char>,
    skips: Seq<SkipLinkView>,
)
    ensures
        committed_record(branch, base, issuer, profile, skips).issuer == issuer,
        committed_record(branch, base, issuer, profile, skips).authority == profile,
        committed_record(branch, base, issuer, profile, skips).lineage == branch_uri(
            origin_uri(profile, branch.reference.subject),
            branch.name(),
        ),
        committed_record(branch, base, issuer, profile, skips).signature.len() == 0,
{
}

} // verus!
