//! Errors.

use crate::memory::{MemoryError, Version};
use crate::plain::Plain;
use crate::revision::TreeReference;
use vstd::prelude::*;
use vstd::std_specs::convert::FromSpec;

verus! {

/// A failure to read or decode facts.
#[derive(Clone, Debug, PartialEq, Eq)]
pub enum ArtifactError {
    /// The storage behind the facts failed.
    Storage(String),
    /// A signature does not verify.
    InvalidSignature(String),
    /// Stored bytes do not decode.
    Decode(String),
}

/// What an [`ArtifactError`] holds.
#[verifier::ext_equal]
pub enum ArtifactErrorView {
    Storage(Seq<char>),
    InvalidSignature(Seq<char>),
    Decode(Seq<char>),
}

impl View for ArtifactError {
    type V = ArtifactErrorView;

    open spec fn view(&self) -> ArtifactErrorView {
        match self {
            ArtifactError::Storage(message) => ArtifactErrorView::Storage(message@),
            ArtifactError::InvalidSignature(message) => ArtifactErrorView::InvalidSignature(
                message@,
            ),
            ArtifactError::Decode(message) => ArtifactErrorView::Decode(message@),
        }
    }
}

impl Plain for ArtifactError {
    fn copy(&self) -> (result: Self) {
        match self {
            ArtifactError::Storage(message) => ArtifactError::Storage(message.copy()),
            ArtifactError::InvalidSignature(message) => ArtifactError::InvalidSignature(
                message.copy(),
            ),
            ArtifactError::Decode(message) => ArtifactError::Decode(message.copy()),
        }
    }

    fn same(&self, other: &Self) -> (result: bool) {
        match (self, other) {
            (ArtifactError::Storage(a), ArtifactError::Storage(b)) => a.same(b),
            (ArtifactError::InvalidSignature(a), ArtifactError::InvalidSignature(b)) => a.same(b),
            (ArtifactError::Decode(a), ArtifactError::Decode(b)) => a.same(b),
            _ => false,
        }
    }
}

/// A failure to walk or edit a tree.
#[derive(Clone, Debug, PartialEq, Eq)]
pub struct TreeError(
    /// What went wrong.
    pub String,
);

/// A failure to find out who acts, or to sign on their behalf.
#[derive(Clone, Debug, PartialEq, Eq)]
pub struct AuthorityError(
    /// What went wrong.
    pub String,
);

/// A failure of the storage of a space.
#[derive(Clone, Debug, PartialEq, Eq)]
pub struct StorageError(
    /// What went wrong.
    pub String,
);

/// A failure to read or write a block.
#[derive(Clone, Debug, PartialEq, Eq)]
pub struct ArchiveError(
    /// What went wrong.
    pub String,
);

/// A failure to make a key.
#[derive(Clone, Debug, PartialEq, Eq)]
pub struct SignerError(
    /// What went wrong.
    pub String,
);

/// Why a cell could not be read.
#[derive(Clone, Debug, PartialEq, Eq)]
pub enum ResolveError {
    /// The store saw another version.
    VersionMismatch {
        /// The version that the handle held.
        expected: Option<Version>,
        /// The version that the store holds.
        actual: Option<Version>,
    },
    /// The backend failed.
    Storage(String),
    /// Access was denied.
    Authorization(String),
    /// Reading failed.
    Io(String),
    /// The stored bytes do not decode.
    Decode(String),
}

/// Why a cell could not be written.
#[derive(Clone, Debug, PartialEq, Eq)]
pub enum PublishError {
    /// Another writer was faster.
    VersionMismatch {
        /// The version that the handle held.
        expected: Option<Version>,
        /// The version that the store holds.
        actual: Option<Version>,
    },
    /// The backend failed.
    Storage(String),
    /// Access was denied.
    Authorization(String),
    /// Writing failed.
    Io(String),
    /// The value does not encode.
    Encode(String),
}

impl From<MemoryError> for ResolveError {
    fn from(error: MemoryError) -> (result: ResolveError) {
        match error {
            MemoryError::VersionMismatch { expected, actual } => ResolveError::VersionMismatch {
                expected,
                actual,
            },
            MemoryError::Storage(message) => ResolveError::Storage(message),
            MemoryError::Authorization(message) => ResolveError::Authorization(message),
            MemoryError::Io(message) => ResolveError::Io(message),
        }
    }
}

impl vstd::std_specs::convert::FromSpecImpl<MemoryError> for ResolveError {
    open spec fn obeys_from_spec() -> bool {
        true
    }

    open spec fn from_spec(error: MemoryError) -> ResolveError {
        match error {
            MemoryError::VersionMismatch { expected, actual } => ResolveError::VersionMismatch {
                expected,
                actual,
            },
            MemoryError::Storage(message) => ResolveError::Storage(message),
            MemoryError::Authorization(message) => ResolveError::Authorization(message),
            MemoryError::Io(message) => ResolveError::Io(message),
        }
    }
}

impl From<MemoryError> for PublishError {
    fn from(error: MemoryError) -> (result: PublishError) {
        match error {
            MemoryError::VersionMismatch { expected, actual } => PublishError::VersionMismatch {
                expected,
                actual,
            },
            MemoryError::Storage(message) => PublishError::Storage(message),
            MemoryError::Authorization(message) => PublishError::Authorization(message),
            MemoryError::Io(message) => PublishError::Io(message),
        }
    }
}

impl vstd::std_specs::convert::FromSpecImpl<MemoryError> for PublishError {
    open spec fn obeys_from_spec() -> bool {
        true
    }

    open spec fn from_spec(error: MemoryError) -> PublishError {
        match error {
            MemoryError::VersionMismatch { expected, actual } => PublishError::VersionMismatch {
                expected,
                actual,
            },
            MemoryError::Storage(message) => PublishError::Storage(message),
            MemoryError::Authorization(message) => PublishError::Authorization(message),
            MemoryError::Io(message) => PublishError::Io(message),
        }
    }
}

/// A credential that can only verify was used where one that signs is needed.
#[derive(Clone, Debug, PartialEq, Eq)]
pub struct SignerRequiredError;

/// Why a remote branch could not be opened.
#[derive(Clone, Debug, PartialEq, Eq)]
pub enum OpenRemoteBranchError {
    /// Its cached state could not be read.
    Resolve(ResolveError),
}

/// Why a remote branch could not be fetched.
#[derive(Clone, Debug, PartialEq, Eq)]
pub enum FetchRemoteBranchError {
    /// Its revision could not be read.
    Resolve(ResolveError),
    /// The revision could not be cached.
    Publish(PublishError),
}

/// Why a revision could not be published to a remote branch.
#[derive(Clone, Debug, PartialEq, Eq)]
pub enum PublishRemoteBranchError {
    /// The cell could not be written.
    Publish(PublishError),
    /// The cell has no version after it was written.
    MissingEdition,
}

/// Why a remote branch could not be loaded.
#[derive(Clone, Debug, PartialEq, Eq)]
pub enum LoadRemoteBranchError {
    /// It was never fetched.
    NotFound {
        /// The name of the branch.
        name: String,
    },
    /// It could not be opened.
    Open(OpenRemoteBranchError),
}

/// Why a repository could not be opened.
#[derive(Clone, Debug, PartialEq, Eq)]
pub enum OpenRepositoryError {
    /// No key could be made for a new one.
    Signer(SignerError),
    /// The storage failed.
    Storage(StorageError),
}

/// Why a repository could not be loaded.
#[derive(Clone, Debug, PartialEq, Eq)]
pub enum LoadRepositoryError {
    /// The storage failed.
    Storage(StorageError),
}

/// Why a repository could not be created.
#[derive(Clone, Debug, PartialEq, Eq)]
pub enum CreateRepositoryError {
    /// No key could be made for it.
    Signer(SignerError),
    /// The storage failed.
    Storage(StorageError),
}

/// Why a remote could not be created.
#[derive(Clone, Debug, PartialEq, Eq)]
pub enum CreateRemoteError {
    /// There is one of that name.
    AlreadyExists {
        /// The name of the remote.
        name: String,
    },
    /// Its address could not be read.
    Resolve(ResolveError),
    /// Its address could not be written.
    Publish(PublishError),
}

/// Why a remote could not be loaded.
#[derive(Clone, Debug, PartialEq, Eq)]
pub enum LoadRemoteError {
    /// There is none of that name.
    NotFound {
        /// The name of the remote.
        name: String,
    },
    /// Its address could not be read.
    Resolve(ResolveError),
}

/// Why a branch could not be loaded.
#[derive(Clone, Debug, PartialEq, Eq)]
pub enum LoadBranchError {
    /// It has no revision yet.
    NotFound {
        /// The name of the branch.
        name: String,
    },
    /// Its cells could not be read.
    Resolve(ResolveError),
}

/// Why an upstream could not be set.
#[derive(Clone, Debug, PartialEq, Eq)]
pub enum SetUpstreamError {
    /// A branch cannot track itself.
    UpstreamIsItself {
        /// The branch.
        branch: String,
    },
    /// The entries could not be written.
    Publish(PublishError),
}

/// Why an upstream could not be fetched.
#[derive(Clone, Debug, PartialEq, Eq)]
pub enum FetchError {
    /// The branch tracks nothing.
    BranchHasNoUpstream {
        /// The branch.
        branch: String,
    },
    /// The local upstream could not be loaded.
    LoadBranch(LoadBranchError),
    /// The remote could not be loaded.
    LoadRemote(LoadRemoteError),
    /// The remote branch could not be opened.
    OpenRemoteBranch(OpenRemoteBranchError),
    /// The remote branch could not be fetched.
    FetchRemoteBranch(FetchRemoteBranchError),
}

/// Why a commit failed.
#[derive(Clone, Debug, PartialEq, Eq)]
pub enum CommitError {
    /// The tree could not be edited.
    Tree(TreeError),
    /// Facts could not be read or decoded.
    Artifact(ArtifactError),
    /// It is not known who commits.
    Authority(AuthorityError),
    /// The new revision could not be written.
    Publish(PublishError),
}

/// Why a pull failed.
#[derive(Clone, Debug, PartialEq, Eq)]
pub enum PullError {
    /// The branch tracks nothing.
    BranchHasNoUpstream {
        /// The branch.
        branch: String,
    },
    /// A branch cannot pull from itself.
    UpstreamIsItself {
        /// The branch.
        branch: String,
    },
    /// The local upstream could not be loaded.
    LoadBranch(LoadBranchError),
    /// The remote could not be loaded.
    LoadRemote(LoadRemoteError),
    /// The remote branch could not be opened.
    OpenRemoteBranch(OpenRemoteBranchError),
    /// The remote branch could not be fetched.
    FetchRemoteBranch(FetchRemoteBranchError),
    /// A cell could not be written.
    Publish(PublishError),
    /// A cell could not be read.
    Resolve(ResolveError),
    /// It is not known who merges.
    Authority(AuthorityError),
    /// A tree could not be walked or edited.
    Tree(TreeError),
    /// A block could not be read.
    Storage(StorageError),
    /// Facts could not be read or decoded, or a head is not signed by its issuer.
    Artifact(ArtifactError),
}

/// Why a tree could not be edited, or what it holds could not be read.
#[derive(Clone, Debug, PartialEq, Eq)]
pub enum EditError {
    /// The tree could not be walked or edited.
    Tree(TreeError),
    /// Facts could not be read or decoded.
    Artifact(ArtifactError),
}

impl EditError {
    /// The failure of a commit that it makes.
    pub open spec fn commit_error(self) -> CommitError {
        match self {
            EditError::Tree(error) => CommitError::Tree(error),
            EditError::Artifact(error) => CommitError::Artifact(error),
        }
    }

    /// The failure of a pull that it makes.
    pub open spec fn pull_error(self) -> PullError {
        match self {
            EditError::Tree(error) => PullError::Tree(error),
            EditError::Artifact(error) => PullError::Artifact(error),
        }
    }

    /// Makes the failure of a commit.
    pub fn in_commit(self) -> (result: CommitError)
        ensures
            result == self.commit_error(),
    {
        match self {
            EditError::Tree(error) => CommitError::Tree(error),
            EditError::Artifact(error) => CommitError::Artifact(error),
        }
    }

    /// Makes the failure of a pull.
    pub fn in_pull(self) -> (result: PullError)
        ensures
            result == self.pull_error(),
    {
        match self {
            EditError::Tree(error) => PullError::Tree(error),
            EditError::Artifact(error) => PullError::Artifact(error),
        }
    }
}

/// Why a record could not be signed.
#[derive(Clone, Debug, PartialEq, Eq)]
pub enum SealError {
    /// The record does not encode.
    Artifact(ArtifactError),
    /// The signature was refused.
    Authority(AuthorityError),
}

impl SealError {
    /// The failure of a commit that it makes.
    pub open spec fn commit_error(self) -> CommitError {
        match self {
            SealError::Artifact(error) => CommitError::Artifact(error),
            SealError::Authority(error) => CommitError::Authority(error),
        }
    }

    /// The failure of a pull that it makes.
    pub open spec fn pull_error(self) -> PullError {
        match self {
            SealError::Artifact(error) => PullError::Artifact(error),
            SealError::Authority(error) => PullError::Authority(error),
        }
    }

    /// Makes the failure of a commit.
    pub fn in_commit(self) -> (result: CommitError)
        ensures
            result == self.commit_error(),
    {
        match self {
            SealError::Artifact(error) => CommitError::Artifact(error),
            SealError::Authority(error) => CommitError::Authority(error),
        }
    }

    /// Makes the failure of a pull.
    pub fn in_pull(self) -> (result: PullError)
        ensures
            result == self.pull_error(),
    {
        match self {
            SealError::Artifact(error) => PullError::Artifact(error),
            SealError::Authority(error) => PullError::Authority(error),
        }
    }
}

/// Why the head of an upstream could not be looked up.
#[derive(Clone, Debug, PartialEq, Eq)]
pub enum LookupError {
    /// The cells of a local upstream could not be read.
    OpenBranch(ResolveError),
    /// The remote could not be loaded.
    LoadRemote(LoadRemoteError),
    /// The remote branch could not be opened.
    OpenRemoteBranch(OpenRemoteBranchError),
    /// The remote branch could not be fetched.
    FetchRemoteBranch(FetchRemoteBranchError),
}

impl LookupError {
    /// The failure of a pull that it makes.
    pub open spec fn pull_error(self) -> PullError {
        match self {
            LookupError::OpenBranch(error) => PullError::LoadBranch(LoadBranchError::Resolve(error)),
            LookupError::LoadRemote(error) => PullError::LoadRemote(error),
            LookupError::OpenRemoteBranch(error) => PullError::OpenRemoteBranch(error),
            LookupError::FetchRemoteBranch(error) => PullError::FetchRemoteBranch(error),
        }
    }

    /// Makes the failure of a pull.
    pub fn in_pull(self) -> (result: PullError)
        ensures
            result == self.pull_error(),
    {
        match self {
            LookupError::OpenBranch(error) => PullError::LoadBranch(LoadBranchError::Resolve(error)),
            LookupError::LoadRemote(error) => PullError::LoadRemote(error),
            LookupError::OpenRemoteBranch(error) => PullError::OpenRemoteBranch(error),
            LookupError::FetchRemoteBranch(error) => PullError::FetchRemoteBranch(error),
        }
    }
}

/// Why blocks could not be uploaded.
#[derive(Clone, Debug, PartialEq, Eq)]
pub enum UploadError {
    /// The tree could not be walked.
    Tree(TreeError),
    /// A block could not be read here.
    LocalRead(ArchiveError),
    /// A block could not be written there.
    RemoteWrite(ArchiveError),
}

/// Why a push failed.
#[derive(Clone, Debug, PartialEq, Eq)]
pub enum PushError {
    /// The branch tracks nothing.
    BranchHasNoUpstream {
        /// The branch.
        branch: String,
    },
    /// A branch cannot push to itself.
    UpstreamIsItself {
        /// The branch.
        branch: String,
    },
    /// The upstream has advanced since the last sync.
    NonFastForward {
        /// The branch.
        branch: String,
        /// The tree at the last sync.
        expected: TreeReference,
        /// The tree that the upstream is at.
        actual: TreeReference,
    },
    /// A cell could not be written.
    Publish(PublishError),
    /// A cell could not be read.
    Resolve(ResolveError),
    /// The remote could not be loaded.
    LoadRemote(LoadRemoteError),
    /// The remote branch could not be opened.
    OpenRemoteBranch(OpenRemoteBranchError),
    /// The remote branch could not be fetched.
    FetchRemoteBranch(FetchRemoteBranchError),
    /// The revision could not be published.
    PublishRemoteBranch(PublishRemoteBranchError),
    /// Blocks could not be uploaded.
    Upload(UploadError),
    /// The tree could not be walked.
    Tree(TreeError),
}

/// Any failure of a repository.
#[derive(Clone, Debug, PartialEq, Eq)]
pub enum RepositoryError {
    /// A repository could not be opened.
    Open(OpenRepositoryError),
    /// A repository could not be loaded.
    Load(LoadRepositoryError),
    /// A repository could not be created.
    Create(CreateRepositoryError),
    /// A branch could not be loaded.
    LoadBranch(LoadBranchError),
    /// A commit failed.
    Commit(CommitError),
    /// An upstream could not be set.
    SetUpstream(SetUpstreamError),
    /// A fetch failed.
    Fetch(FetchError),
    /// A push failed.
    Push(PushError),
    /// A pull failed.
    Pull(PullError),
    /// A remote could not be loaded.
    LoadRemote(LoadRemoteError),
    /// A remote could not be created.
    CreateRemote(CreateRemoteError),
    /// A remote branch could not be opened.
    OpenRemoteBranch(OpenRemoteBranchError),
    /// A remote branch could not be loaded.
    LoadRemoteBranch(LoadRemoteBranchError),
    /// A remote branch could not be fetched.
    FetchRemoteBranch(FetchRemoteBranchError),
    /// A revision could not be published.
    PublishRemoteBranch(PublishRemoteBranchError),
    /// Blocks could not be uploaded.
    Upload(UploadError),
    /// A cell could not be written.
    Publish(PublishError),
    /// A cell could not be read.
    Resolve(ResolveError),
    /// A tree could not be read.
    Select(TreeError),
    /// A credential that signs is needed.
    SignerRequired(SignerRequiredError),
}

/// A failure to evaluate a query.
#[derive(Clone, Debug, PartialEq, Eq)]
pub enum EvaluationError {
    /// What the query reads could not be read.
    Store(String),
}

/// What an [`EvaluationError`] holds.
#[verifier::ext_equal]
pub enum EvaluationErrorView {
    Store(Seq<char>),
}

impl View for EvaluationError {
    type V = EvaluationErrorView;

    open spec fn view(&self) -> EvaluationErrorView {
        match self {
            EvaluationError::Store(message) => EvaluationErrorView::Store(message@),
        }
    }
}

impl Plain for EvaluationError {
    fn copy(&self) -> (result: Self) {
        match self {
            EvaluationError::Store(message) => EvaluationError::Store(message.copy()),
        }
    }

    fn same(&self, other: &Self) -> (result: bool) {
        match (self, other) {
            (EvaluationError::Store(a), EvaluationError::Store(b)) => a.same(b),
        }
    }
}

/// A failure of the store stays the failure that it is, whether a cell was to
/// be read or to be written: a lost race stays one, with both versions.
pub proof fn law_failures_of_the_store_keep_their_sort(error: MemoryError)
    ensures
        match error {
            MemoryError::VersionMismatch { expected, actual } => {
                &&& <ResolveError as FromSpec<MemoryError>>::from_spec(error) == (
                ResolveError::VersionMismatch { expected, actual })
                &&& <PublishError as FromSpec<MemoryError>>::from_spec(error) == (
                PublishError::VersionMismatch { expected, actual })
            },
            MemoryError::Storage(message) => {
                &&& <ResolveError as FromSpec<MemoryError>>::from_spec(error)
                    == ResolveError::Storage(message)
                &&& <PublishError as FromSpec<MemoryError>>::from_spec(error)
                    == PublishError::Storage(message)
            },
            MemoryError::Authorization(message) => {
                &&& <ResolveError as FromSpec<MemoryError>>::from_spec(error)
                    == ResolveError::Authorization(message)
                &&& <PublishError as FromSpec<MemoryError>>::from_spec(error)
                    == PublishError::Authorization(message)
            },
            MemoryError::Io(message) => {
                &&& <ResolveError as FromSpec<MemoryError>>::from_spec(error) == ResolveError::Io(
                    message,
                )
                &&& <PublishError as FromSpec<MemoryError>>::from_spec(error) == PublishError::Io(
                    message,
                )
            },
        },
{
}

} // verus!
