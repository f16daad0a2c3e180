//! Repositories and who holds their keys.

use crate::branch::{branch_space, BranchReference, BranchReferenceView};
use crate::error::SignerRequiredError;
use crate::identity::Did;
use crate::plain::Plain;
use vstd::prelude::*;

verus! {

/// Someone with an identifier.
pub trait Principal {
    /// What the identifier reads.
    spec fn id(&self) -> Seq<char>;

    /// The identifier.
    fn did(&self) -> (result: Did)
        ensures
            result@ == self.id(),
    ;
}

/// A credential that signs.
#[derive(Clone, Debug, PartialEq, Eq)]
pub struct SignerCredential {
    /// Whose credential it is.
    pub did: Did,
}

/// A credential that can only verify.
#[derive(Clone, Debug, PartialEq, Eq)]
pub struct VerifierCredential {
    /// Whose credential it is.
    pub did: Did,
}

/// A key pair.
#[derive(Clone, Debug, PartialEq, Eq)]
pub struct Ed25519Signer {
    /// Whose key pair it is.
    pub did: Did,
}

/// Someone who holds spaces.
#[derive(Clone, Debug, PartialEq, Eq)]
pub struct Profile {
    /// The credential of the profile.
    pub signer: SignerCredential,
}

/// A credential of either sort.
#[derive(Clone, Debug, PartialEq, Eq)]
pub enum Credential {
    /// One that signs.
    Signer(SignerCredential),
    /// One that can only verify.
    Verifier(VerifierCredential),
}

impl Principal for SignerCredential {
    open spec fn id(&self) -> Seq<char> {
        self.did@
    }

    fn did(&self) -> (result: Did) {
        self.did.copy()
    }
}

impl Principal for VerifierCredential {
    open spec fn id(&self) -> Seq<char> {
        self.did@
    }

    fn did(&self) -> (result: Did) {
        self.did.copy()
    }
}

impl Principal for Profile {
    open spec fn id(&self) -> Seq<char> {
        self.signer.id()
    }

    fn did(&self) -> (result: Did) {
        self.signer.did()
    }
}

impl Profile {
    /// The space of a name.
    pub fn repository(&self, name: &str) -> (result: SpaceHandle)
        ensures
            result.profile_did@ == self.id(),
            result.name@ == name@,
    {
        SpaceHandle { profile_did: self.signer.did(), name: name.to_owned() }
    }
}

impl Principal for Credential {
    open spec fn id(&self) -> Seq<char> {
        match self {
            Credential::Signer(signer) => signer.id(),
            Credential::Verifier(verifier) => verifier.id(),
        }
    }

    fn did(&self) -> (result: Did) {
        match self {
            Credential::Signer(signer) => signer.did(),
            Credential::Verifier(verifier) => verifier.did(),
        }
    }
}

/// Names a remote of a repository.
#[derive(Clone, Debug, PartialEq, Eq)]
pub struct RemoteReference {
    /// The repository.
    pub subject: Did,
    /// The name.
    pub name: String,
}

/// A repository, by the credential for it. One with a credential that signs
/// can hand out access.
#[derive(Clone, Debug, PartialEq, Eq)]
pub struct Repository<C: Principal = Credential> {
    /// The credential.
    pub credential: C,
}

impl<C: Principal> Repository<C> {
    /// The repository of the credential.
    pub fn new(credential: C) -> (result: Repository<C>)
        ensures
            result == (Repository { credential }),
    {
        Repository { credential }
    }

    /// The credential.
    pub fn credential(&self) -> (result: &C)
        ensures
            *result == self.credential,
    {
        &self.credential
    }

    /// The identifier of the repository.
    pub fn did(&self) -> (result: Did)
        ensures
            result@ == self.credential.id(),
    {
        self.credential.did()
    }

    /// The subject that the facts of the repository belong to.
    pub fn subject(&self) -> (result: Did)
        ensures
            result@ == self.credential.id(),
    {
        self.credential.did()
    }

    /// The reference to the branch of a name.
    pub fn branch(&self, name: &str) -> (result: BranchReference)
        ensures
            result@ == (BranchReferenceView {
                subject: self.credential.id(),
                space: branch_space(name@),
            }),
    {
        BranchReference::new(self.credential.did(), name)
    }

    /// The reference to the remote of a name.
    pub fn remote(&self, name: &str) -> (result: RemoteReference)
        ensures
            result.subject@ == self.credential.id(),
            result.name@ == name@,
    {
        RemoteReference { subject: self.credential.did(), name: name.to_owned() }
    }
}

impl<C: Principal> Principal for Repository<C> {
    open spec fn id(&self) -> Seq<char> {
        self.credential.id()
    }

    fn did(&self) -> (result: Did) {
        self.credential.did()
    }
}

/// What access to a repository is handed out with.
#[derive(Clone, Copy, Debug)]
pub struct Access<'a> {
    /// The credential that signs.
    pub signer: &'a SignerCredential,
}

impl Repository<SignerCredential> {
    /// What access is handed out with.
    pub fn access(&self) -> (result: Access<'_>)
        ensures
            *result.signer == self.credential,
    {
        Access { signer: &self.credential }
    }
}

impl Repository<Credential> {
    /// What access is handed out with; nothing where the credential can only
    /// verify.
    pub fn try_access(&self) -> (result: Option<Access<'_>>)
        ensures
            match self.credential {
                Credential::Signer(signer) => result matches Some(access) && *access.signer
                    == signer,
                Credential::Verifier(_) => result is None,
            },
    {
        match &self.credential {
            Credential::Signer(signer) => Some(Access { signer }),
            Credential::Verifier(_) => None,
        }
    }
}

impl From<Credential> for Repository<Credential> {
    fn from(credential: Credential) -> (result: Repository<Credential>) {
        Repository::new(credential)
    }
}

impl vstd::std_specs::convert::FromSpecImpl<Credential> for Repository<Credential> {
    open spec fn obeys_from_spec() -> bool {
        true
    }

    open spec fn from_spec(credential: Credential) -> Repository<Credential> {
        Repository { credential }
    }
}

impl From<SignerCredential> for Repository<SignerCredential> {
    fn from(credential: SignerCredential) -> (result: Repository<SignerCredential>) {
        Repository::new(credential)
    }
}

impl vstd::std_specs::convert::FromSpecImpl<SignerCredential> for Repository<SignerCredential> {
    open spec fn obeys_from_spec() -> bool {
        true
    }

    open spec fn from_spec(credential: SignerCredential) -> Repository<SignerCredential> {
        Repository { credential }
    }
}

impl From<Ed25519Signer> for Repository<SignerCredential> {
    fn from(signer: Ed25519Signer) -> (result: Repository<SignerCredential>) {
        Repository::new(SignerCredential { did: signer.did })
    }
}

impl vstd::std_specs::convert::FromSpecImpl<Ed25519Signer> for Repository<SignerCredential> {
    open spec fn obeys_from_spec() -> bool {
        true
    }

    open spec fn from_spec(signer: Ed25519Signer) -> Repository<SignerCredential> {
        Repository { credential: SignerCredential { did: signer.did } }
    }
}

impl From<Profile> for Repository<SignerCredential> {
    fn from(profile: Profile) -> (result: Repository<SignerCredential>) {
        Repository::new(profile.signer)
    }
}

impl vstd::std_specs::convert::FromSpecImpl<Profile> for Repository<SignerCredential> {
    open spec fn obeys_from_spec() -> bool {
        true
    }

    open spec fn from_spec(profile: Profile) -> Repository<SignerCredential> {
        Repository { credential: profile.signer }
    }
}

impl<'a> From<&'a Profile> for Repository<SignerCredential> {
    fn from(profile: &'a Profile) -> (result: Repository<SignerCredential>) {
        Repository::new(SignerCredential { did: Did(profile.signer.did.0.clone()) })
    }
}

impl<'a> vstd::std_specs::convert::FromSpecImpl<&'a Profile> for Repository<SignerCredential> {
    open spec fn obeys_from_spec() -> bool {
        true
    }

    open spec fn from_spec(profile: &'a Profile) -> Repository<SignerCredential> {
        Repository { credential: profile.signer }
    }
}

impl TryFrom<Credential> for Repository<SignerCredential> {
    type Error = SignerRequiredError;

    fn try_from(credential: Credential) -> (result: Result<
        Repository<SignerCredential>,
        SignerRequiredError,
    >) {
        match credential {
            Credential::Signer(signer) => Ok(Repository::new(signer)),
            Credential::Verifier(_) => Err(SignerRequiredError),
        }
    }
}

impl vstd::std_specs::convert::TryFromSpecImpl<Credential> for Repository<SignerCredential> {
    open spec fn obeys_try_from_spec() -> bool {
        true
    }

    open spec fn try_from_spec(credential: Credential) -> Result<
        Repository<SignerCredential>,
        SignerRequiredError,
    > {
        match credential {
            Credential::Signer(signer) => Ok(Repository { credential: signer }),
            Credential::Verifier(_) => Err(SignerRequiredError),
        }
    }
}

/// A named space of a profile.
#[derive(Clone, Debug, PartialEq, Eq)]
pub struct SpaceHandle {
    /// The profile.
    pub profile_did: Did,
    /// The name.
    pub name: String,
}

/// Opens the repository in a space, and creates it if there is none.
#[derive(Clone, Debug, PartialEq, Eq)]
pub struct OpenRepository(
    /// The space.
    pub SpaceHandle,
);

/// Loads the repository in a space, and fails if there is none.
#[derive(Clone, Debug, PartialEq, Eq)]
pub struct LoadRepository(
    /// The space.
    pub SpaceHandle,
);

/// Creates a repository in a space, and fails if there is one.
#[derive(Clone, Debug, PartialEq, Eq)]
pub struct CreateRepository(
    /// The space.
    pub SpaceHandle,
);

/// Gets at the repository in a space.
pub trait RepositoryExt: Sized {
    /// The space.
    spec fn space(self) -> SpaceHandle;

    /// Opens the repository, and creates it if there is none.
    fn open(self) -> (result: OpenRepository)
        ensures
            result == OpenRepository(self.space()),
    ;

    /// Loads the repository, and fails if there is none.
    fn load(self) -> (result: LoadRepository)
        ensures
            result == LoadRepository(self.space()),
    ;

    /// Creates the repository, and fails if there is one.
    fn create(self) -> (result: CreateRepository)
        ensures
            result == CreateRepository(self.space()),
    ;
}

impl RepositoryExt for SpaceHandle {
    open spec fn space(self) -> SpaceHandle {
        self
    }

    fn open(self) -> (result: OpenRepository) {
        OpenRepository(self)
    }

    fn load(self) -> (result: LoadRepository) {
        LoadRepository(self)
    }

    fn create(self) -> (result: CreateRepository) {
        CreateRepository(self)
    }
}

/// A repository is identified as its credential is, whichever sort that is.
pub proof fn law_repositories_are_identified_by_their_credentials(
    signer: SignerCredential,
    verifier: VerifierCredential,
)
    ensures
        signer.id() == signer.did@,
        verifier.id() == verifier.did@,
        Credential::Signer(signer).id() == signer.did@,
        Credential::Verifier(verifier).id() == verifier.did@,
        (Repository { credential: signer }).id() == signer.did@,
        (Repository { credential: Credential::Verifier(verifier) }).id() == verifier.did@,
        (Profile { signer }).id() == signer.did@,
{
}

} // verus!
