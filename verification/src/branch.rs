//! Branches: named lines of development within a repository.

use crate::error::{LoadBranchError, ResolveError};
use crate::identity::Did;
use crate::memory::{Cell, CellView, Version};
use crate::plain::{opt_view, Plain};
use crate::revision::{empty_tree, Revision, RevisionView, TreeReference};
use crate::upstream::{Upstream, UpstreamView, Upstreams};
use vstd::prelude::*;

pub mod commit;
pub mod landing;
pub mod pull;
pub mod select;
pub mod transfer;

verus! {

/// Names a cell by the space that holds it.
#[derive(Clone, Debug, PartialEq, Eq)]
pub struct CellReference {
    /// The repository.
    pub subject: Did,
    /// The space.
    pub space: String,
    /// The name of the cell.
    pub cell: String,
}

/// Names the blocks of a repository.
#[derive(Clone, Debug, PartialEq, Eq)]
pub struct ArchiveReference {
    /// The repository.
    pub subject: Did,
}

impl ArchiveReference {
    /// The blocks that make up the trees of facts.
    pub fn index(self) -> (result: CatalogReference)
        ensures
            result.subject@ == self.subject@,
    {
        CatalogReference { subject: self.subject }
    }
}

/// Names the blocks that make up the trees of facts of a repository.
#[derive(Clone, Debug, PartialEq, Eq)]
pub struct CatalogReference {
    /// The repository.
    pub subject: Did,
}

/// What a cell holds according to the store.
pub open spec fn resolved_cell<T: View>(state: Option<(T, Version)>) -> CellView<T::V> {
    match state {
        Some((content, version)) => CellView { content: Some(content@), version: Some(version@) },
        None => CellView { content: None, version: None },
    }
}

/// Names a branch of a repository by the space that holds its cells.
#[derive(Clone, Debug, PartialEq, Eq)]
pub struct BranchReference {
    /// The repository.
    pub subject: Did,
    /// The space, which is `branch/` and the name.
    pub space: String,
}

/// What a [`BranchReference`] holds.
#[verifier::ext_equal]
pub struct BranchReferenceView {
    pub subject: Seq<char>,
    pub space: Seq<char>,
}

/// The name of the branch whose cells are in the space; nothing where the
/// space is not one of a branch.
pub open spec fn branch_name(space: Seq<char>) -> Seq<char> {
    let prefix = "branch/"@;
    if prefix.is_prefix_of(space) {
        space.skip(prefix.len() as int)
    } else {
        Seq::empty()
    }
}

/// The space that holds the cells of the branch.
pub open spec fn branch_space(name: Seq<char>) -> Seq<char> {
    "branch/"@ + name
}

/// A branch is named by its space.
pub proof fn law_branch_name_is_kept(name: Seq<char>)
    ensures
        branch_name(branch_space(name)) == name,
{
    let prefix = "branch/"@;
    assert(prefix.is_prefix_of(branch_space(name)));
    assert(branch_space(name).skip(prefix.len() as int) =~= name);
}

impl View for BranchReference {
    type V = BranchReferenceView;

    open spec fn view(&self) -> BranchReferenceView {
        BranchReferenceView { subject: self.subject@, space: self.space@ }
    }
}

impl Plain for BranchReference {
    fn copy(&self) -> (result: Self) {
        BranchReference { subject: self.subject.copy(), space: self.space.copy() }
    }

    fn same(&self, other: &Self) -> (result: bool) {
        self.subject.same(&other.subject) && self.space.same(&other.space)
    }
}

impl BranchReference {
    /// The reference to the branch of a name.
    pub fn new(subject: Did, name: &str) -> (result: BranchReference)
        ensures
            result@ == (BranchReferenceView { subject: subject@, space: branch_space(name@) }),
    {
        let mut space = "branch/".to_owned();
        space.append(name);
        BranchReference { subject, space }
    }

    /// The repository.
    pub fn of(&self) -> (result: &Did)
        ensures
            result@ == self@.subject,
    {
        &self.subject
    }

    /// The repository, as what effects are performed on.
    pub fn subject(&self) -> (result: Did)
        ensures
            result@ == self@.subject,
    {
        self.subject.copy()
    }

    /// Opens the branch, which need not have a head.
    pub fn open(self) -> (result: OpenBranch)
        ensures
            result == OpenBranch(self),
    {
        OpenBranch(self)
    }

    /// Loads the branch, which must have a head.
    pub fn load(self) -> (result: LoadBranch)
        ensures
            result == LoadBranch(self),
    {
        LoadBranch(self)
    }

    /// The cell of the head.
    pub fn revision(&self) -> (result: CellReference)
        ensures
            result.subject@ == self@.subject,
            result.space@ == self@.space,
            result.cell@ == "revision"@,
    {
        self.cell("revision")
    }

    /// The cell of what the branch tracks.
    pub fn upstream(&self) -> (result: CellReference)
        ensures
            result.subject@ == self@.subject,
            result.space@ == self@.space,
            result.cell@ == "upstream"@,
    {
        self.cell("upstream")
    }

    /// A cell in the space of the branch.
    pub fn cell(&self, name: &str) -> (result: CellReference)
        ensures
            result.subject@ == self@.subject,
            result.space@ == self@.space,
            result.cell@ == name@,
    {
        CellReference {
            subject: self.subject.copy(),
            space: self.space.copy(),
            cell: name.to_owned(),
        }
    }

    /// The name of the branch.
    pub fn name(&self) -> (result: &str)
        ensures
            result@ == branch_name(self@.space),
    {
        proof {
            reveal_strlit("branch/");
            reveal_strlit("");
        }
        let space = self.space.as_str();
        let len: usize = space.unicode_len();
        if len >= 7 {
            let prefix = space.substring_char(0, 7).to_owned();
            if prefix == "branch/".to_owned() {
                assert("branch/"@.is_prefix_of(space@));
                assert(space@.subrange(7, len as int) =~= space@.skip(7));
                return space.substring_char(7, len);
            }
            assert(!"branch/"@.is_prefix_of(space@)) by {
                if "branch/"@.is_prefix_of(space@) {
                    assert(space@.subrange(0, 7) =~= "branch/"@);
                }
            }
        }
        assert(""@ =~= Seq::<char>::empty());
        ""
    }
}

/// A handle to a branch: what was last seen of its head and of what it
/// tracks.
#[derive(Clone, Debug, PartialEq, Eq)]
pub struct Branch {
    /// Which branch this is.
    pub reference: BranchReference,
    /// The cell of the head.
    pub revision: Cell<Revision>,
    /// The cell of what the branch tracks.
    pub upstream: Cell<Upstreams>,
}

/// What a [`Branch`] holds.
#[verifier::ext_equal]
pub struct BranchView {
    pub reference: BranchReferenceView,
    pub revision: CellView<RevisionView>,
    pub upstream: CellView<Seq<UpstreamView>>,
}

impl BranchView {
    /// The repository.
    pub open spec fn of(self) -> Seq<char> {
        self.reference.subject
    }

    /// The name.
    pub open spec fn name(self) -> Seq<char> {
        branch_name(self.reference.space)
    }

    /// The head.
    pub open spec fn head(self) -> Option<RevisionView> {
        self.revision.content
    }

    /// The root of the head's tree.
    pub open spec fn tree(self) -> Seq<u8> {
        match self.head() {
            Some(revision) => revision.tree,
            None => empty_tree(),
        }
    }

    /// What the branch tracks.
    pub open spec fn upstreams(self) -> Seq<UpstreamView> {
        match self.upstream.content {
            Some(upstreams) => upstreams,
            None => Seq::empty(),
        }
    }

    /// What the branch tracks by default.
    pub open spec fn default_upstream(self) -> Option<UpstreamView> {
        if self.upstreams().len() == 0 {
            None
        } else {
            Some(self.upstreams()[0])
        }
    }
}

impl View for Branch {
    type V = BranchView;

    open spec fn view(&self) -> BranchView {
        BranchView {
            reference: self.reference@,
            revision: self.revision@,
            upstream: self.upstream@,
        }
    }
}

impl Branch {
    /// A handle that has seen nothing of the branch yet.
    pub fn new(reference: BranchReference) -> (result: Branch)
        ensures
            result@ == (BranchView {
                reference: reference@,
                revision: CellView { content: None, version: None },
                upstream: CellView { content: None, version: None },
            }),
    {
        Branch { reference, revision: Cell::new(), upstream: Cell::new() }
    }

    /// The name.
    pub fn name(&self) -> (result: &str)
        ensures
            result@ == self@.name(),
    {
        self.reference.name()
    }

    /// The repository.
    pub fn of(&self) -> (result: &Did)
        ensures
            result@ == self@.of(),
    {
        self.reference.of()
    }

    /// The repository, as what effects are performed on.
    pub fn subject(&self) -> (result: Did)
        ensures
            result@ == self@.of(),
    {
        self.reference.subject()
    }

    /// The head, if the branch has commits.
    pub fn revision(&self) -> (result: Option<Revision>)
        ensures
            opt_view(result) == self@.head(),
    {
        self.revision.content()
    }

    /// The root of the head's tree; that of the empty tree where the branch
    /// has no commits.
    pub fn tree(&self) -> (result: TreeReference)
        ensures
            result@ == self@.tree(),
    {
        match &self.revision.content {
            Some(revision) => revision.tree,
            None => TreeReference::default(),
        }
    }

    /// All that the branch tracks, the default first.
    pub fn upstreams(&self) -> (result: Upstreams)
        ensures
            result@ == self@.upstreams(),
    {
        match self.upstream.content() {
            Some(upstreams) => upstreams,
            None => Upstreams::default(),
        }
    }

    /// What a pull, a push or a fetch without a target is about.
    pub fn upstream(&self) -> (result: Option<Upstream>)
        ensures
            opt_view(result) == self@.default_upstream(),
    {
        match self.upstreams().default_upstream() {
            Some(upstream) => Some(upstream.copy()),
            None => None,
        }
    }

    /// The blocks of the host repository.
    pub fn archive(&self) -> (result: ArchiveReference)
        ensures
            result.subject@ == self@.of(),
    {
        ArchiveReference { subject: self.subject() }
    }

    /// The root that the recorded history is read from: history lies in the
    /// same tree as the facts.
    pub fn history(&self) -> (result: TreeReference)
        ensures
            result@ == self@.tree(),
    {
        self.tree()
    }

    /// Takes note of what the store holds of the head and then of what the
    /// branch tracks. Where one could not be read, what was noted before it
    /// stays.
    pub fn refresh(
        &mut self,
        revision: Result<Option<(Revision, Version)>, ResolveError>,
        upstream: Result<Option<(Upstreams, Version)>, ResolveError>,
    ) -> (result: Result<(), ResolveError>)
        ensures
            final(self)@.reference == old(self)@.reference,
            match revision {
                Err(error) => *final(self) == *old(self) && result == Err::<(), ResolveError>(
                    error,
                ),
                Ok(revision) => final(self)@.revision == resolved_cell(revision)
                    && match upstream {
                    Err(error) => final(self)@.upstream == old(self)@.upstream && result == Err::<
                        (),
                        ResolveError,
                    >(error),
                    Ok(upstream) => final(self)@.upstream == resolved_cell(upstream) && (
                    result matches Ok(())),
                },
            },
    {
        match revision {
            Err(error) => {
                return Err(error);
            },
            Ok(revision) => {
                self.revision.resolved(revision);
            },
        }
        match upstream {
            Err(error) => Err(error),
            Ok(upstream) => {
                self.upstream.resolved(upstream);
                Ok(())
            },
        }
    }
}

/// Opens a branch, which need not have a head.
#[derive(Clone, Debug, PartialEq, Eq)]
pub struct OpenBranch(
    /// Which branch.
    pub BranchReference,
);

/// Loads a branch, which must have a head.
#[derive(Clone, Debug, PartialEq, Eq)]
pub struct LoadBranch(
    /// Which branch.
    pub BranchReference,
);

impl OpenBranch {
    /// The branch, where the store holds the given states of its cells.
    pub fn perform(
        self,
        revision: Option<(Revision, Version)>,
        upstream: Option<(Upstreams, Version)>,
    ) -> (result: Branch)
        ensures
            result@ == (BranchView {
                reference: self.0@,
                revision: resolved_cell(revision),
                upstream: resolved_cell(upstream),
            }),
    {
        let mut branch = Branch::new(self.0);
        branch.revision.resolved(revision);
        branch.upstream.resolved(upstream);
        branch
    }
}

impl LoadBranch {
    /// The branch, where the store holds the given states of its cells. A
    /// branch without a head is not there.
    pub fn perform(
        self,
        revision: Option<(Revision, Version)>,
        upstream: Option<(Upstreams, Version)>,
    ) -> (result: Result<Branch, LoadBranchError>)
        ensures
            match result {
                Ok(branch) => revision is Some && branch@ == (BranchView {
                    reference: self.0@,
                    revision: resolved_cell(revision),
                    upstream: resolved_cell(upstream),
                }),
                Err(LoadBranchError::NotFound { name }) => revision is None && name@
                    == branch_name(self.0@.space),
                Err(_) => false,
            },
    {
        if revision.is_none() {
            return Err(LoadBranchError::NotFound { name: self.0.name().to_owned() });
        }
        Ok(OpenBranch(self.0).perform(revision, upstream))
    }
}

/// A space that is not one of a branch names none.
pub proof fn law_other_spaces_name_no_branch(space: Seq<char>)
    requires
        forall|name: Seq<char>| space != "branch/"@ + name,
    ensures
        branch_name(space).len() == 0,
{
    let prefix = "branch/"@;
    if prefix.is_prefix_of(space) {
        assert(space =~= prefix + space.skip(prefix.len() as int));
    }
}

/// Branches of different names have different spaces, and each space begins
/// with `branch/`.
pub proof fn law_branches_have_their_own_spaces(a: Seq<char>, b: Seq<char>)
    ensures
        branch_space(a) == branch_space(b) <==> a == b,
        branch_space(a) == "branch/"@ + a,
{
    law_branch_name_is_kept(a);
    law_branch_name_is_kept(b);
}

/// What a branch is read as: its head is what its cell holds, its tree is that
/// of its head or the empty one, and it tracks by default the first of what its
/// other cell holds.
pub proof fn law_branches_are_read_from_their_cells(branch: BranchView)
    ensures
        branch.of() == branch.reference.subject,
        branch.reference.space == branch_space(branch.name()) || branch.name().len() == 0,
        branch.head() == branch.revision.content,
        branch.revision.content matches Some(head) ==> branch.tree() == head.tree,
        branch.revision.content is None ==> branch.tree() == Seq::new(32, |i: int| 0u8),
        branch.upstream.content matches Some(entries) ==> branch.upstreams() == entries,
        branch.upstream.content is None ==> branch.upstreams().len() == 0,
        branch.upstreams().len() == 0 ==> branch.default_upstream() is None,
        branch.upstreams().len() > 0 ==> branch.default_upstream() == Some(branch.upstreams()[0]),
{
    let prefix = "branch/"@;
    let space = branch.reference.space;
    if prefix.is_prefix_of(space) {
        assert(space =~= prefix + space.skip(prefix.len() as int));
    }
}

/// A cell that was read holds what the store held, under its version.
pub proof fn law_cells_hold_what_was_read<T: View>(state: Option<(T, Version)>)
    ensures
        state matches Some((content, version)) ==> resolved_cell(state).content == Some(content@)
            && resolved_cell(state).version == Some(version@),
        state is None ==> resolved_cell(state).content is None && resolved_cell(
            state,
        ).version is None,
{
}

} // verus!
