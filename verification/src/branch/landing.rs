//! The second phase of a pull: moving the head and noting what was synced.

use super::pull::{
    chosen, failure, mergeable, mints, prepared, Merged, MergedView, PreparedPull, Pull, Replies,
};
use super::{Branch, BranchView};
use crate::error::{PublishError, PullError, ResolveError};
use crate::memory::{CellView, Checkpoint, Version};
use crate::plain::{opt_view, Plain};
use crate::revision::{Revision, RevisionView};
use crate::upstream::{find, upsert, Upstream, UpstreamView, Upstreams};
use vstd::prelude::*;

verus! {

impl PreparedPull {
    /// What is to be written over the head; nothing where there is nothing to
    /// pull.
    pub fn begin(self) -> (result: Option<Merged>)
        ensures
            match self {
                PreparedPull::NoOp => result is None,
                PreparedPull::Merged(merged) => result == Some(merged),
            },
    {
        match self {
            PreparedPull::NoOp => None,
            PreparedPull::Merged(merged) => Some(merged),
        }
    }
}

/// The branch after its head was written.
pub open spec fn with_head(
    branch: BranchView,
    head: RevisionView,
    version: Seq<u8>,
) -> BranchView {
    BranchView {
        revision: CellView { content: Some(head), version: Some(version) },
        ..branch
    }
}

/// The branch after what it tracks was written.
pub open spec fn with_upstreams(
    branch: BranchView,
    upstreams: Seq<UpstreamView>,
    version: Seq<u8>,
) -> BranchView {
    BranchView {
        upstream: CellView { content: Some(upstreams), version: Some(version) },
        ..branch
    }
}

/// The branch after what it tracks was read again.
pub open spec fn with_resolved(
    branch: BranchView,
    state: Option<(Seq<UpstreamView>, Seq<u8>)>,
) -> BranchView {
    BranchView {
        upstream: match state {
            Some((upstreams, version)) => CellView {
                content: Some(upstreams),
                version: Some(version),
            },
            None => CellView { content: None, version: None },
        },
        ..branch
    }
}

/// The view of what a cell was found to hold.
pub open spec fn state_view(
    state: Option<(Upstreams, Version)>,
) -> Option<(Seq<UpstreamView>, Seq<u8>)> {
    match state {
        Some((upstreams, version)) => Some((upstreams@, version@)),
        None => None,
    }
}

impl Merged {
    /// Goes on with what came of writing the new head. A write that failed
    /// leaves the branch as it was: another writer was faster, or the store
    /// refused. Otherwise what was synced is to be noted beside all else that
    /// the branch tracks.
    pub fn head_published(
        self,
        branch: &mut Branch,
        outcome: Result<Version, PublishError>,
    ) -> (result: Result<Marker, PullError>)
        requires
            self@.reference == old(branch)@.reference,
        ensures
            match outcome {
                Err(error) => *final(branch) == *old(branch) && result == Err::<Marker, PullError>(
                    PullError::Publish(error),
                ),
                Ok(version) => final(branch)@ == with_head(
                    old(branch)@,
                    self@.new_revision,
                    version@,
                ) && (result matches Ok(marker) && marker.merged@ == self@ && marker.checkpoint@
                    == old(branch)@.upstream.version && marker.upstreams@ == upsert(
                    old(branch)@.upstreams(),
                    self@.sync,
                )),
            },
    {
        let version = match outcome {
            Ok(version) => version,
            Err(error) => {
                return Err(PullError::Publish(error));
            },
        };
        branch.revision.published(self.new_revision.copy(), version);
        let checkpoint = branch.upstream.checkpoint();
        let mut upstreams = branch.upstreams();
        upstreams.upsert(self.sync.copy());
        Ok(Marker { checkpoint, upstreams, merged: self })
    }
}

/// A note of what was synced, to be written.
pub struct Marker {
    /// The state of the cell that the note is made from.
    pub checkpoint: Checkpoint,
    /// What is to be written.
    pub upstreams: Upstreams,
    /// The merge that is the head now.
    pub merged: Merged,
}

/// What came of writing a note.
pub enum Noted {
    /// The pull is done, and this is the head.
    Done(Option<Revision>),
    /// The cell has moved: it is to be read again.
    Reread(Reread),
}

impl Marker {
    /// Goes on with what came of writing the note. Where another sync was
    /// faster, the cell is to be read again.
    pub fn published(
        self,
        branch: &mut Branch,
        outcome: Result<Version, PublishError>,
    ) -> (result: Result<Noted, PullError>)
        requires
            self.merged@.reference == old(branch)@.reference,
        ensures
            match outcome {
                Ok(version) => final(branch)@ == with_upstreams(
                    old(branch)@,
                    self.upstreams@,
                    version@,
                ) && (result matches Ok(Noted::Done(Some(revision))) && revision@
                    == self.merged@.new_revision),
                Err(PublishError::VersionMismatch { .. }) => *final(branch) == *old(branch) && (
                result matches Ok(Noted::Reread(reread)) && reread.merged@ == self.merged@),
                Err(error) => *final(branch) == *old(branch) && result == Err::<Noted, PullError>(
                    PullError::Publish(error),
                ),
            },
    {
        match outcome {
            Ok(version) => {
                branch.upstream.published(self.upstreams, version);
                Ok(Noted::Done(Some(self.merged.new_revision)))
            },
            Err(PublishError::VersionMismatch { .. }) => Ok(
                Noted::Reread(Reread { merged: self.merged }),
            ),
            Err(error) => Err(PullError::Publish(error)),
        }
    }
}

/// A note that another sync overtook. The cell is to be read again.
pub struct Reread {
    /// The merge that is the head now.
    pub merged: Merged,
}

/// Whether the entry for the pulled upstream is where the merge started from,
/// or is not there yet.
pub open spec fn untouched(upstreams: Seq<UpstreamView>, merged: MergedView) -> bool {
    match find(upstreams, merged.sync.target) {
        None => true,
        Some(entry) => entry.tree == merged.base,
    }
}

/// What came of reading the cell again.
pub enum Retried {
    /// The pull is done, and this is the head.
    Done(Option<Revision>),
    /// The note is to be written once more.
    Again(LastMarker),
}

impl Reread {
    /// Goes on with what the cell was found to hold. Where the entry for the
    /// pulled upstream has moved, another sync of it has noted where it stands
    /// and is not overwritten. Otherwise the note is made from what the cell
    /// holds now.
    pub fn resolved(
        self,
        branch: &mut Branch,
        outcome: Result<Option<(Upstreams, Version)>, ResolveError>,
    ) -> (result: Result<Retried, PullError>)
        requires
            self.merged@.reference == old(branch)@.reference,
        ensures
            match outcome {
                Err(error) => *final(branch) == *old(branch) && result == Err::<Retried, PullError>(
                    PullError::Resolve(error),
                ),
                Ok(state) => final(branch)@ == with_resolved(old(branch)@, state_view(state)) && (
                match result {
                    Ok(Retried::Done(revision)) => !untouched(
                        final(branch)@.upstreams(),
                        self.merged@,
                    ) && opt_view(revision) == old(branch)@.head(),
                    Ok(Retried::Again(marker)) => untouched(
                        final(branch)@.upstreams(),
                        self.merged@,
                    ) && marker.merged@ == self.merged@ && marker.checkpoint@
                        == final(branch)@.upstream.version && marker.upstreams@ == upsert(
                        final(branch)@.upstreams(),
                        self.merged@.sync,
                    ),
                    Err(_) => false,
                }),
            },
    {
        match outcome {
            Err(error) => Err(PullError::Resolve(error)),
            Ok(state) => {
                branch.upstream.resolved(state);
                let checkpoint = branch.upstream.checkpoint();
                let mut upstreams = branch.upstreams();
                let ours = match upstreams.find(&self.merged.sync) {
                    None => true,
                    Some(entry) => entry.tree().same(&self.merged.base),
                };
                if !ours {
                    return Ok(Retried::Done(branch.revision()));
                }
                upstreams.upsert(self.merged.sync.copy());
                Ok(Retried::Again(LastMarker { checkpoint, upstreams, merged: self.merged }))
            },
        }
    }
}

/// A note of what was synced, to be written for the second time.
pub struct LastMarker {
    /// The state of the cell that the note is made from.
    pub checkpoint: Checkpoint,
    /// What is to be written.
    pub upstreams: Upstreams,
    /// The merge that is the head now.
    pub merged: Merged,
}

impl LastMarker {
    /// Ends the pull with what came of writing the note. Where yet another
    /// sync was faster, the note is given up: the merge is the head, and the
    /// next pull only has more to do.
    pub fn published(
        self,
        branch: &mut Branch,
        outcome: Result<Version, PublishError>,
    ) -> (result: Result<Option<Revision>, PullError>)
        requires
            self.merged@.reference == old(branch)@.reference,
        ensures
            match outcome {
                Ok(version) => final(branch)@ == with_upstreams(
                    old(branch)@,
                    self.upstreams@,
                    version@,
                ) && (result matches Ok(Some(revision)) && revision@ == self.merged@.new_revision),
                Err(PublishError::VersionMismatch { .. }) => *final(branch) == *old(branch) && (
                result matches Ok(revision) && opt_view(revision) == old(branch)@.head()),
                Err(error) => *final(branch) == *old(branch) && result == Err::<
                    Option<Revision>,
                    PullError,
                >(PullError::Publish(error)),
            },
    {
        match outcome {
            Ok(version) => {
                branch.upstream.published(self.upstreams, version);
                Ok(Some(self.merged.new_revision))
            },
            Err(PublishError::VersionMismatch { .. }) => Ok(branch.revision()),
            Err(error) => Err(PullError::Publish(error)),
        }
    }
}

/// All that the outside world answers in the second phase of a pull. What a
/// pull does not come to ask for is left unused.
pub struct Outcomes {
    /// What came of writing the head.
    pub head: Result<Version, PublishError>,
    /// What came of writing the note.
    pub marker: Result<Version, PublishError>,
    /// What came of reading the note again.
    pub reread: Result<Option<(Upstreams, Version)>, ResolveError>,
    /// What came of writing the note again.
    pub last: Result<Version, PublishError>,
}

/// The branch after the second phase of a pull.
pub open spec fn landed(
    branch: BranchView,
    merged: MergedView,
    outcomes: Outcomes,
) -> BranchView {
    match outcomes.head {
        Err(_) => branch,
        Ok(version) => {
            let moved = with_head(branch, merged.new_revision, version@);
            match outcomes.marker {
                Ok(version) => with_upstreams(
                    moved,
                    upsert(branch.upstreams(), merged.sync),
                    version@,
                ),
                Err(PublishError::VersionMismatch { .. }) => match outcomes.reread {
                    Err(_) => moved,
                    Ok(state) => {
                        let read = with_resolved(moved, state_view(state));
                        if !untouched(read.upstreams(), merged) {
                            read
                        } else {
                            match outcomes.last {
                                Ok(version) => with_upstreams(
                                    read,
                                    upsert(read.upstreams(), merged.sync),
                                    version@,
                                ),
                                Err(_) => read,
                            }
                        }
                    },
                },
                Err(_) => moved,
            }
        },
    }
}

/// How the second phase of a pull fails, if it does.
pub open spec fn landing_error(
    branch: BranchView,
    merged: MergedView,
    outcomes: Outcomes,
) -> Option<PullError> {
    match outcomes.head {
        Err(error) => Some(PullError::Publish(error)),
        Ok(version) => match outcomes.marker {
            Ok(_) => None,
            Err(PublishError::VersionMismatch { .. }) => match outcomes.reread {
                Err(error) => Some(PullError::Resolve(error)),
                Ok(state) => {
                    let read = with_resolved(
                        with_head(branch, merged.new_revision, version@),
                        state_view(state),
                    );
                    if !untouched(read.upstreams(), merged) {
                        None
                    } else {
                        match outcomes.last {
                            Ok(_) => None,
                            Err(PublishError::VersionMismatch { .. }) => None,
                            Err(error) => Some(PullError::Publish(error)),
                        }
                    }
                },
            },
            Err(error) => Some(PullError::Publish(error)),
        },
    }
}

impl PreparedPull {
    /// The second phase of a pull as a whole, for given outcomes. It returns
    /// the head that the branch has then; nothing where there was nothing to
    /// pull.
    pub fn commit(
        self,
        branch: &mut Branch,
        outcomes: Outcomes,
    ) -> (result: Result<Option<Revision>, PullError>)
        requires
            self matches PreparedPull::Merged(merged) ==> merged@.reference
                == old(branch)@.reference,
        ensures
            match self {
                PreparedPull::NoOp => *final(branch) == *old(branch) && (result matches Ok(None)),
                PreparedPull::Merged(merged) => final(branch)@ == landed(
                    old(branch)@,
                    merged@,
                    outcomes,
                ) && match landing_error(old(branch)@, merged@, outcomes) {
                    Some(error) => result == Err::<Option<Revision>, PullError>(error),
                    None => result matches Ok(Some(revision)) && revision@
                        == merged@.new_revision,
                },
            },
    {
        let merged = match self.begin() {
            None => {
                return Ok(None);
            },
            Some(merged) => merged,
        };
        let marker = match merged.head_published(branch, outcomes.head) {
            Ok(marker) => marker,
            Err(error) => {
                return Err(error);
            },
        };
        let reread = match marker.published(branch, outcomes.marker) {
            Ok(Noted::Done(revision)) => {
                return Ok(revision);
            },
            Ok(Noted::Reread(reread)) => reread,
            Err(error) => {
                return Err(error);
            },
        };
        let marker = match reread.resolved(branch, outcomes.reread) {
            Ok(Retried::Done(revision)) => {
                return Ok(revision);
            },
            Ok(Retried::Again(marker)) => marker,
            Err(error) => {
                return Err(error);
            },
        };
        marker.published(branch, outcomes.last)
    }
}

/// A pull whose head could not be written changes nothing: neither the head
/// nor what is tracked.
pub proof fn law_lost_race_changes_nothing(
    branch: BranchView,
    merged: MergedView,
    outcomes: Outcomes,
)
    requires
        outcomes.head is Err,
    ensures
        landed(branch, merged, outcomes) == branch,
        landing_error(branch, merged, outcomes) == Some(
            PullError::Publish(outcomes.head->Err_0),
        ),
{
}

/// Once the head was written it is the merge, whatever comes of the note.
pub proof fn law_head_is_the_merge(branch: BranchView, merged: MergedView, outcomes: Outcomes)
    requires
        outcomes.head is Ok,
    ensures
        landed(branch, merged, outcomes).head() == Some(merged.new_revision),
{
}

/// A sync that another pull noted in the meantime is not taken back: where
/// the entry for the upstream was found moved, it stays as it was found.
pub proof fn law_sync_never_goes_back(
    branch: BranchView,
    merged: MergedView,
    outcomes: Outcomes,
)
    requires
        outcomes.head is Ok,
        outcomes.marker matches Err(PublishError::VersionMismatch { .. }),
        outcomes.reread matches Ok(Some((upstreams, _))) && (find(
            upstreams@,
            merged.sync.target,
        ) matches Some(entry) && entry.tree != merged.base),
    ensures
        outcomes.reread matches Ok(Some((upstreams, _))) ==> landed(
            branch,
            merged,
            outcomes,
        ).upstreams() == upstreams@,
        landing_error(branch, merged, outcomes) is None,
{
}

/// Where the note was written, the upstream is tracked at the tree that was
/// merged in, and every other entry is as it was when the note was made.
pub proof fn law_note_is_kept(
    branch: BranchView,
    merged: MergedView,
    outcomes: Outcomes,
    target: crate::upstream::Target,
)
    requires
        outcomes.head is Ok,
        outcomes.marker is Ok,
        target != merged.sync.target,
    ensures
        find(landed(branch, merged, outcomes).upstreams(), merged.sync.target) == Some(
            merged.sync,
        ),
        find(landed(branch, merged, outcomes).upstreams(), target) == find(
            branch.upstreams(),
            target,
        ),
{
    crate::upstream::law_find_after_upsert(branch.upstreams(), merged.sync);
    crate::upstream::law_upsert_keeps_other_entries(branch.upstreams(), merged.sync, target);
}

impl<'a> Pull<'a> {
    /// A pull as a whole, for given replies and outcomes: what the branch has
    /// for a head then, or nothing where there was nothing to pull.
    pub fn perform(
        branch: &mut Branch,
        from: Option<Upstream>,
        replies: Replies,
        outcomes: Outcomes,
    ) -> (result: Result<Option<Revision>, PullError>)
        requires
            mergeable(old(branch)@, opt_view(from), replies),
        ensures
            match chosen(old(branch)@, opt_view(from)) {
                None => *final(branch) == *old(branch) && match result {
                    Err(PullError::BranchHasNoUpstream { branch: name }) => from is None && name@
                        == old(branch)@.name(),
                    Err(PullError::UpstreamIsItself { branch: name }) => from is Some && name@
                        == old(branch)@.name(),
                    _ => false,
                },
                Some(upstream) => match failure(old(branch)@, upstream, replies) {
                    Some(error) => *final(branch) == *old(branch) && result == Err::<
                        Option<Revision>,
                        PullError,
                    >(error),
                    None => match prepared(old(branch)@, upstream, replies) {
                        None => *final(branch) == *old(branch) && (result matches Ok(None)),
                        Some(merged) => final(branch)@ == landed(old(branch)@, merged, outcomes)
                            && match landing_error(old(branch)@, merged, outcomes) {
                            Some(error) => result == Err::<Option<Revision>, PullError>(error),
                            None => result matches Ok(Some(revision)) && revision@
                                == merged.new_revision,
                        },
                    },
                },
            },
    {
        let mut pull = branch.pull();
        if let Some(source) = from {
            pull = pull.from(source);
        }
        match pull.prepare(replies) {
            Ok(prepared) => prepared.commit(branch, outcomes),
            Err(error) => Err(error),
        }
    }
}

/// Whether a handle and the store agree on what a version of the head is.
pub open spec fn coherent(branch: BranchView, store: CellView<RevisionView>) -> bool {
    branch.revision.version == store.version ==> branch.revision.content == store.content
}

/// Whether the store lets a write take place: only over the state that the
/// writer expects.
pub open spec fn lets_write(store: CellView<RevisionView>, expected: Option<Seq<u8>>) -> bool {
    store.version == expected
}

/// No commit is lost to a pull: a merge that the store lets take the place of
/// its head was made from that head, and where both sides had something of
/// their own it is deeper than that head.
pub proof fn law_merges_build_on_what_they_replace(
    branch: BranchView,
    store: CellView<RevisionView>,
    upstream: UpstreamView,
    replies: Replies,
)
    requires
        coherent(branch, store),
        prepared(branch, upstream, replies) matches Some(merged) && lets_write(store, merged.head),
    ensures
        branch.head() == store.content,
        mints(branch, upstream, replies) ==> prepared(
            branch,
            upstream,
            replies,
        )->0.new_revision.edition > store.content->0.edition,
{
}

/// Where head and note are both written, the branch holds the merge as its
/// head, and what it tracks is what it tracked with the sync noted; both under
/// the versions that the store gave them. The pull does not fail.
pub proof fn law_pulls_land(branch: BranchView, merged: MergedView, outcomes: Outcomes)
    requires
        outcomes.head is Ok,
        outcomes.marker is Ok,
    ensures
        ({
            let after = landed(branch, merged, outcomes);
            &&& after.reference == branch.reference
            &&& after.revision.content == Some(merged.new_revision)
            &&& after.revision.version == Some(outcomes.head->Ok_0@)
            &&& after.upstream.content == Some(
                upsert(
                    match branch.upstream.content {
                        Some(entries) => entries,
                        None => Seq::empty(),
                    },
                    merged.sync,
                ),
            )
            &&& after.upstream.version == Some(outcomes.marker->Ok_0@)
        }),
        landing_error(branch, merged, outcomes) is None,
{
}

/// Once the head is written it stays, under the version that the store gave
/// it, whatever comes of the note; and it stays the same branch.
pub proof fn law_landed_heads_stay(branch: BranchView, merged: MergedView, outcomes: Outcomes)
    requires
        outcomes.head is Ok,
    ensures
        landed(branch, merged, outcomes).revision.content == Some(merged.new_revision),
        landed(branch, merged, outcomes).revision.version == Some(outcomes.head->Ok_0@),
        landed(branch, merged, outcomes).reference == branch.reference,
{
}

/// A note that could not be written leaves what is tracked as it was. Only a
/// lost race is tried again, from what the cell was found to hold.
pub proof fn law_unwritten_notes(branch: BranchView, merged: MergedView, outcomes: Outcomes)
    requires
        outcomes.head is Ok,
        outcomes.marker is Err,
    ensures
        !(outcomes.marker->Err_0 is VersionMismatch) ==> {
            &&& landed(branch, merged, outcomes).upstream == branch.upstream
            &&& landing_error(branch, merged, outcomes) == Some(
                PullError::Publish(outcomes.marker->Err_0),
            )
        },
        outcomes.marker->Err_0 is VersionMismatch && outcomes.reread is Err ==> {
            &&& landed(branch, merged, outcomes).upstream == branch.upstream
            &&& landing_error(branch, merged, outcomes) == Some(
                PullError::Resolve(outcomes.reread->Err_0),
            )
        },
{
}

/// After a lost race the sync is noted beside what the cell holds by then,
/// where the entry for the upstream is still where the merge started from or is
/// not there. A second lost race is let go.
pub proof fn law_notes_are_retried(
    branch: BranchView,
    merged: MergedView,
    outcomes: Outcomes,
    found: Seq<UpstreamView>,
)
    requires
        outcomes.head is Ok,
        outcomes.marker is Err && outcomes.marker->Err_0 is VersionMismatch,
        outcomes.reread is Ok,
        found == (match outcomes.reread->Ok_0 {
            Some((entries, _)) => entries@,
            None => Seq::empty(),
        }),
        find(found, merged.sync.target) matches Some(entry) ==> entry.tree == merged.base,
    ensures
        outcomes.last matches Ok(version) ==> {
            &&& landed(branch, merged, outcomes).upstream.content == Some(
                upsert(found, merged.sync),
            )
            &&& landed(branch, merged, outcomes).upstream.version == Some(version@)
            &&& landing_error(branch, merged, outcomes) is None
        },
        outcomes.last matches Err(error) ==> {
            &&& match outcomes.reread->Ok_0 {
                Some((entries, version)) => {
                    &&& landed(branch, merged, outcomes).upstream.content == Some(entries@)
                    &&& landed(branch, merged, outcomes).upstream.version == Some(version@)
                },
                None => {
                    &&& landed(branch, merged, outcomes).upstream.content is None
                    &&& landed(branch, merged, outcomes).upstream.version is None
                },
            }
            &&& error is VersionMismatch ==> landing_error(branch, merged, outcomes) is None
            &&& !(error is VersionMismatch) ==> landing_error(branch, merged, outcomes) == Some(
                PullError::Publish(error),
            )
        },
{
}

} // verus!
