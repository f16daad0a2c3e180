//! The facts that a repository states about itself.
//!
//! They are made up when a query needs them, out of the branches at hand and
//! of who asks, and are never stored.
//!
//! An entity that has an identifier of its own (a profile, a repository) is
//! named by it, see [`DidExt::this`]. One that is defined by other things (an
//! origin by a profile and a repository, a branch by an origin and a name) is
//! named by its content, see [`EntityExt::of`].

use crate::artifact::{Value, ValueView};
use crate::changes::{asserts, replaces, Changes, PendingView, Statement};
use crate::encoding::{content_uri, dag_cbor_tagged, Content};
use crate::encoding_laws::{fits, law_tagged_pairs_encode_apart, law_uri_names_the_hash, TaggedView};
use crate::identity::{Did, Entity};
use crate::plain::Plain;
use vstd::prelude::*;

pub use crate::encoding::EntityExt;

pub mod branch;
pub mod origin;
pub mod revision;
pub mod session;

verus! {

/// Views an identifier as the entity that it identifies.
pub trait DidExt: Sized + View<V = Seq<char>> {
    /// The entity, which reads as the identifier does.
    fn this(&self) -> (result: Entity)
        ensures
            result@ == self@,
    ;
}

impl DidExt for Did {
    fn this(&self) -> (result: Entity) {
        Entity(self.0.clone())
    }
}

/// What is, or has, an entity.
pub trait AsEntity {
    /// The entity's URI.
    spec fn uri(&self) -> Seq<char>;

    /// The entity.
    fn as_entity(&self) -> (result: &Entity)
        ensures
            result@ == self.uri(),
    ;
}

impl AsEntity for Entity {
    open spec fn uri(&self) -> Seq<char> {
        self@
    }

    fn as_entity(&self) -> (result: &Entity) {
        self
    }
}

/// What the entity of an origin is derived from.
pub struct OriginHash<'a> {
    /// The repository.
    pub subject: &'a Did,
    /// The profile.
    pub profile: &'a Did,
}

/// What the canonical bytes of an origin hold.
pub open spec fn origin_content(profile: Seq<char>, subject: Seq<char>) -> TaggedView {
    TaggedView {
        tag: "Origin"@,
        key: "profile"@,
        value: profile,
        other_key: "subject"@,
        other_value: subject,
    }
}

impl<'a> Content for OriginHash<'a> {
    open spec fn encoding(&self) -> Seq<u8> {
        origin_content(self.profile@, self.subject@).encoding()
    }

    fn encode(&self) -> (result: Vec<u8>) {
        proof {
            reveal_strlit("profile");
            reveal_strlit("subject");
        }
        dag_cbor_tagged(
            "Origin",
            ("profile", self.profile.0.as_str()),
            ("subject", self.subject.0.as_str()),
        )
    }
}

/// What the entity of a branch is derived from.
pub struct BranchHash<'a> {
    /// The origin.
    pub origin: &'a Entity,
    /// The name.
    pub name: &'a str,
}

/// What the canonical bytes of a branch hold.
pub open spec fn branch_content(origin: Seq<char>, name: Seq<char>) -> TaggedView {
    TaggedView {
        tag: "Branch"@,
        key: "name"@,
        value: name,
        other_key: "origin"@,
        other_value: origin,
    }
}

impl<'a> Content for BranchHash<'a> {
    open spec fn encoding(&self) -> Seq<u8> {
        branch_content(self.origin@, self.name@).encoding()
    }

    fn encode(&self) -> (result: Vec<u8>) {
        proof {
            reveal_strlit("name");
            reveal_strlit("origin");
        }
        dag_cbor_tagged("Branch", ("name", self.name), ("origin", self.origin.0.as_str()))
    }
}

/// The URI of the origin of a profile and a repository.
pub open spec fn origin_uri(profile: Seq<char>, subject: Seq<char>) -> Seq<char> {
    content_uri(origin_content(profile, subject).encoding())
}

/// The URI of the branch of a name on an origin.
pub open spec fn branch_uri(origin: Seq<char>, name: Seq<char>) -> Seq<char> {
    content_uri(branch_content(origin, name).encoding())
}

/// A profile's view of a repository.
///
/// Devices that hold the same profile agree on the entity, and different
/// profiles have different ones for the same repository. Subject and profile
/// are stated beside the entity, since they cannot be read off it.
#[derive(Clone, Debug, PartialEq, Eq, PartialOrd, Ord)]
pub struct Origin {
    /// The origin's entity.
    pub this: Entity,
    /// The repository that this is a view of.
    pub subject: origin::Subject,
    /// The profile whose view this is.
    pub profile: origin::Profile,
}

impl Origin {
    /// The origin of a profile and a repository.
    pub fn new(profile: Did, subject: Did) -> (result: Origin)
        ensures
            result.this@ == origin_uri(profile@, subject@),
            result.subject@ == subject@,
            result.profile@ == profile@,
    {
        Origin {
            this: Entity::of(&OriginHash { subject: &subject, profile: &profile }),
            subject: origin::Subject(subject.this()),
            profile: origin::Profile(profile.this()),
        }
    }
}

impl AsEntity for Origin {
    open spec fn uri(&self) -> Seq<char> {
        self.this@
    }

    fn as_entity(&self) -> (result: &Entity) {
        &self.this
    }
}

/// What is stated of an origin.
pub open spec fn origin_statement(
    this: Seq<char>,
    subject: Seq<char>,
    profile: Seq<char>,
) -> Seq<PendingView> {
    seq![
        replaces("dialog.origin/subject"@, this, ValueView::Entity(subject)),
        replaces("dialog.origin/profile"@, this, ValueView::Entity(profile)),
    ]
}

impl Statement for Origin {
    open spec fn statement(&self) -> Seq<PendingView> {
        origin_statement(self.this@, self.subject@, self.profile@)
    }

    fn assert_into(&self, changes: &mut Changes) {
        changes.associate_unique(
            origin::Subject::the(),
            self.this.copy(),
            Value::Entity(self.subject.0.copy()),
        );
        changes.associate_unique(
            origin::Profile::the(),
            self.this.copy(),
            Value::Entity(self.profile.0.copy()),
        );
        assert(changes@ =~= old(changes)@ + self.statement());
    }
}

/// A branch on an origin.
///
/// Devices that agree on the origin agree on the branch.
#[derive(Clone, Debug, PartialEq, Eq, PartialOrd, Ord)]
pub struct Branch {
    /// The branch's entity.
    pub this: Entity,
    /// The branch's name on its origin.
    pub name: branch::Name,
    /// The origin that the branch lives on.
    pub origin: branch::Origin,
}

impl Branch {
    /// The branch of a name on an origin.
    pub fn new<T: AsEntity>(origin: &T, name: &str) -> (result: Branch)
        ensures
            result.this@ == branch_uri(origin.uri(), name@),
            result.name@ == name@,
            result.origin@ == origin.uri(),
    {
        let origin = origin.as_entity();
        Branch {
            this: Entity::of(&BranchHash { origin, name }),
            name: branch::Name(name.to_owned()),
            origin: branch::Origin(origin.copy()),
        }
    }
}

impl AsEntity for Branch {
    open spec fn uri(&self) -> Seq<char> {
        self.this@
    }

    fn as_entity(&self) -> (result: &Entity) {
        &self.this
    }
}

/// What is stated of a branch.
pub open spec fn branch_statement(
    this: Seq<char>,
    name: Seq<char>,
    origin: Seq<char>,
) -> Seq<PendingView> {
    seq![
        replaces("dialog.branch/name"@, this, ValueView::String(name)),
        replaces("dialog.branch/origin"@, this, ValueView::Entity(origin)),
    ]
}

impl Statement for Branch {
    open spec fn statement(&self) -> Seq<PendingView> {
        branch_statement(self.this@, self.name@, self.origin@)
    }

    fn assert_into(&self, changes: &mut Changes) {
        changes.associate_unique(
            branch::Name::the(),
            self.this.copy(),
            Value::String(self.name.0.clone()),
        );
        changes.associate_unique(
            branch::Origin::the(),
            self.this.copy(),
            Value::Entity(self.origin.0.copy()),
        );
        assert(changes@ =~= old(changes)@ + self.statement());
    }
}

/// The current revision of a branch, stated on the branch's entity.
///
/// A branch without commits has none, and then nothing of this is stated.
#[derive(Clone, Debug, PartialEq, Eq, PartialOrd, Ord)]
pub struct BranchRevision {
    /// The branch's entity.
    pub this: Entity,
    /// The hash of the revision's tree in base 58.
    pub tree: branch::Tree,
    /// The causal depth of the revision.
    pub edition: branch::Edition,
    /// The revision's entity.
    pub revision: branch::Revision,
}

/// What is stated of the current revision of a branch.
pub open spec fn branch_revision_statement(
    this: Seq<char>,
    tree: Seq<char>,
    edition: u128,
    revision: Seq<char>,
) -> Seq<PendingView> {
    seq![
        replaces("dialog.branch/tree"@, this, ValueView::String(tree)),
        replaces("dialog.branch/edition"@, this, ValueView::UnsignedInt(edition)),
        replaces("dialog.branch/revision"@, this, ValueView::Entity(revision)),
    ]
}

impl Statement for BranchRevision {
    open spec fn statement(&self) -> Seq<PendingView> {
        branch_revision_statement(self.this@, self.tree@, self.edition@, self.revision@)
    }

    fn assert_into(&self, changes: &mut Changes) {
        changes.associate_unique(
            branch::Tree::the(),
            self.this.copy(),
            Value::String(self.tree.0.clone()),
        );
        changes.associate_unique(
            branch::Edition::the(),
            self.this.copy(),
            Value::UnsignedInt(self.edition.0),
        );
        changes.associate_unique(
            branch::Revision::the(),
            self.this.copy(),
            Value::Entity(self.revision.0.copy()),
        );
        assert(changes@ =~= old(changes)@ + self.statement());
    }
}

/// What a revision states about itself in its signed record.
///
/// The fields are never stored as facts of their own: rules derive them from
/// the record.
#[derive(Clone, Debug, PartialEq, Eq, PartialOrd, Ord)]
pub struct Revision {
    /// The revision's entity.
    pub this: Entity,
    /// The branch that the revision was minted on.
    pub lineage: revision::Lineage,
    /// The operator that minted the revision.
    pub issuer: revision::Issuer,
    /// The profile that authorized it.
    pub authority: revision::Authority,
    /// The causal depth.
    pub edition: revision::Edition,
}

/// One revision that another was minted on top of. A merge has two, the first
/// revision none.
#[derive(Clone, Debug, PartialEq, Eq, PartialOrd, Ord)]
pub struct RevisionParent {
    /// The revision's entity.
    pub this: Entity,
    /// A parent's entity.
    pub parent: revision::Parent,
}

/// What a query session reads from, stated on one fixed entity.
#[derive(Clone, Debug, PartialEq, Eq, PartialOrd, Ord)]
pub struct Session {
    /// The session's entity.
    pub this: Entity,
    /// The profile.
    pub profile: session::Profile,
    /// The operator.
    pub operator: session::Operator,
}

impl Session {
    /// The entity of every session: there is one per query.
    pub fn entity() -> (result: Entity)
        ensures
            result@ == "db:session"@,
    {
        Entity::new("db:session")
    }
}

/// What is stated of a session.
pub open spec fn session_statement(
    this: Seq<char>,
    profile: Seq<char>,
    operator: Seq<char>,
) -> Seq<PendingView> {
    seq![
        replaces("dialog.session/profile"@, this, ValueView::Entity(profile)),
        replaces("dialog.session/operator"@, this, ValueView::Entity(operator)),
    ]
}

impl Statement for Session {
    open spec fn statement(&self) -> Seq<PendingView> {
        session_statement(self.this@, self.profile@, self.operator@)
    }

    fn assert_into(&self, changes: &mut Changes) {
        changes.associate_unique(
            session::Profile::the(),
            self.this.copy(),
            Value::Entity(self.profile.0.copy()),
        );
        changes.associate_unique(
            session::Operator::the(),
            self.this.copy(),
            Value::Entity(self.operator.0.copy()),
        );
        assert(changes@ =~= old(changes)@ + self.statement());
    }
}

/// One branch in the scope of the session. A session may have many, so that
/// stating one leaves the others.
#[derive(Clone, Debug, PartialEq, Eq, PartialOrd, Ord)]
pub struct SessionBranch {
    /// The session's entity.
    pub this: Entity,
    /// The branch.
    pub branch: session::Branch,
}

/// What is stated of a branch in the scope of a session.
pub open spec fn session_branch_statement(this: Seq<char>, branch: Seq<char>) -> Seq<PendingView> {
    seq![asserts("dialog.session/branch"@, this, ValueView::Entity(branch))]
}

impl Statement for SessionBranch {
    open spec fn statement(&self) -> Seq<PendingView> {
        session_branch_statement(self.this@, self.branch@)
    }

    fn assert_into(&self, changes: &mut Changes) {
        changes.associate(
            session::Branch::the(),
            self.this.copy(),
            Value::Entity(self.branch.0.copy()),
        );
        assert(changes@ =~= old(changes)@ + self.statement());
    }
}

/// Whether two contents have the same hash though they differ.
pub open spec fn collide(a: Seq<u8>, b: Seq<u8>) -> bool {
    a != b && crate::encoding::blake3_hash(a) == crate::encoding::blake3_hash(b)
}

/// Different profiles or repositories have different origins, unless their
/// canonical bytes collide.
pub proof fn law_origins_are_told_apart(
    profile: Seq<char>,
    subject: Seq<char>,
    other_profile: Seq<char>,
    other_subject: Seq<char>,
)
    requires
        fits(profile),
        fits(subject),
        fits(other_profile),
        fits(other_subject),
        origin_uri(profile, subject) == origin_uri(other_profile, other_subject),
        !collide(
            origin_content(profile, subject).encoding(),
            origin_content(other_profile, other_subject).encoding(),
        ),
    ensures
        profile == other_profile,
        subject == other_subject,
{
    let a = origin_content(profile, subject);
    let b = origin_content(other_profile, other_subject);
    law_uri_names_the_hash(a.encoding(), b.encoding());
    lemma_literals_fit();
    law_tagged_pairs_encode_apart(a, b);
}

/// Different names or origins have different branches, unless their canonical
/// bytes collide.
pub proof fn law_branches_are_told_apart(
    origin: Seq<char>,
    name: Seq<char>,
    other_origin: Seq<char>,
    other_name: Seq<char>,
)
    requires
        fits(origin),
        fits(name),
        fits(other_origin),
        fits(other_name),
        branch_uri(origin, name) == branch_uri(other_origin, other_name),
        !collide(
            branch_content(origin, name).encoding(),
            branch_content(other_origin, other_name).encoding(),
        ),
    ensures
        origin == other_origin,
        name == other_name,
{
    let a = branch_content(origin, name);
    let b = branch_content(other_origin, other_name);
    law_uri_names_the_hash(a.encoding(), b.encoding());
    lemma_literals_fit();
    law_tagged_pairs_encode_apart(a, b);
}

/// No branch has the entity of an origin, whatever their fields hold, unless
/// their canonical bytes collide.
pub proof fn law_concepts_are_told_apart(
    profile: Seq<char>,
    subject: Seq<char>,
    origin: Seq<char>,
    name: Seq<char>,
)
    requires
        fits(profile),
        fits(subject),
        fits(origin),
        fits(name),
        !collide(
            origin_content(profile, subject).encoding(),
            branch_content(origin, name).encoding(),
        ),
    ensures
        origin_uri(profile, subject) != branch_uri(origin, name),
{
    let a = origin_content(profile, subject);
    let b = branch_content(origin, name);
    if origin_uri(profile, subject) == branch_uri(origin, name) {
        law_uri_names_the_hash(a.encoding(), b.encoding());
        lemma_literals_fit();
        law_tagged_pairs_encode_apart(a, b);
        reveal_strlit("profile");
        reveal_strlit("name");
        assert("profile"@.len() == "name"@.len());
    }
}

proof fn lemma_literals_fit()
    ensures
        fits("Origin"@),
        fits("Branch"@),
        fits("profile"@),
        fits("subject"@),
        fits("name"@),
        fits("origin"@),
{
    reveal_strlit("Origin");
    reveal_strlit("Branch");
    reveal_strlit("profile");
    reveal_strlit("subject");
    reveal_strlit("name");
    reveal_strlit("origin");
    vstd::utf8::is_ascii_chars_encode_utf8("Origin"@);
    vstd::utf8::is_ascii_chars_encode_utf8("Branch"@);
    vstd::utf8::is_ascii_chars_encode_utf8("profile"@);
    vstd::utf8::is_ascii_chars_encode_utf8("subject"@);
    vstd::utf8::is_ascii_chars_encode_utf8("name"@);
    vstd::utf8::is_ascii_chars_encode_utf8("origin"@);
}

/// An origin is named by the profile and the repository, and a branch by its
/// origin and its name, each under its own field of canonical bytes.
pub proof fn law_entities_are_named_by_content(
    profile: Seq<char>,
    subject: Seq<char>,
    origin: Seq<char>,
    name: Seq<char>,
)
    ensures
        origin_uri(profile, subject) == "did:key:z6Mk"@ + crate::encoding::base58_text(
            crate::encoding::blake3_hash(
                crate::encoding::cbor_tagged_pair(
                    "Origin"@,
                    "profile"@,
                    profile,
                    "subject"@,
                    subject,
                ),
            ),
        ),
        branch_uri(origin, name) == "did:key:z6Mk"@ + crate::encoding::base58_text(
            crate::encoding::blake3_hash(
                crate::encoding::cbor_tagged_pair("Branch"@, "name"@, name, "origin"@, origin),
            ),
        ),
{
}

/// What is stated of an origin, a branch, its revision and a session: each
/// value under its own attribute, in the place of any other; only the branches
/// of a session stand beside each other.
pub proof fn law_statements(
    this: Seq<char>,
    a: Seq<char>,
    b: Seq<char>,
    edition: u128,
)
    ensures
        origin_statement(this, a, b) == seq![
            replaces("dialog.origin/subject"@, this, ValueView::Entity(a)),
            replaces("dialog.origin/profile"@, this, ValueView::Entity(b)),
        ],
        branch_statement(this, a, b) == seq![
            replaces("dialog.branch/name"@, this, ValueView::String(a)),
            replaces("dialog.branch/origin"@, this, ValueView::Entity(b)),
        ],
        branch_revision_statement(this, a, edition, b) == seq![
            replaces("dialog.branch/tree"@, this, ValueView::String(a)),
            replaces("dialog.branch/edition"@, this, ValueView::UnsignedInt(edition)),
            replaces("dialog.branch/revision"@, this, ValueView::Entity(b)),
        ],
        session_statement(this, a, b) == seq![
            replaces("dialog.session/profile"@, this, ValueView::Entity(a)),
            replaces("dialog.session/operator"@, this, ValueView::Entity(b)),
        ],
        session_branch_statement(this, a) == seq![
            asserts("dialog.session/branch"@, this, ValueView::Entity(a)),
        ],
{
}

} // verus!
