//! Revisions: states of a branch, and where they stand in its history.

use crate::artifact::{Artifact, Value, ValueView};
use crate::bytes::{lemma_lex_irreflexive, lemma_lex_transitive, lex_lt};
use crate::identity::{Attribute, Did, Entity};
use crate::plain::{copy_all, same_all, views, Plain};
use crate::schema;
use crate::schema::{branch_uri, origin_uri};
use vstd::prelude::*;

verus! {

/// The root of a tree that holds nothing.
pub open spec fn empty_tree() -> Seq<u8> {
    Seq::new(32, |i: int| 0u8)
}

/// The root of a tree, by its hash.
#[derive(Clone, Copy, Debug, PartialEq, Eq, Hash)]
pub struct TreeReference(pub [u8; 32]);

impl View for TreeReference {
    type V = Seq<u8>;

    open spec fn view(&self) -> Seq<u8> {
        self.0@
    }
}

impl Plain for TreeReference {
    fn copy(&self) -> (result: Self) {
        *self
    }

    fn same(&self, other: &Self) -> (result: bool) {
        crate::bytes::same_bytes(self.0.as_slice(), other.0.as_slice())
    }
}

impl Default for TreeReference {
    fn default() -> (result: TreeReference)
        ensures
            result@ == empty_tree(),
    {
        let result = TreeReference([0u8; 32]);
        assert(result@ =~= empty_tree());
        result
    }
}

impl TreeReference {
    /// The hash.
    pub fn hash(&self) -> (result: &[u8; 32])
        ensures
            result@ == self@,
    {
        &self.0
    }
}

/// How deep in its history a revision is: a Lamport timestamp.
#[derive(Clone, Copy, Debug, PartialEq, Eq, PartialOrd, Ord, Hash)]
pub struct Edition(pub u64);

impl View for Edition {
    type V = nat;

    open spec fn view(&self) -> nat {
        self.0 as nat
    }
}

impl Plain for Edition {
    fn copy(&self) -> (result: Self) {
        *self
    }

    fn same(&self, other: &Self) -> (result: bool) {
        self.0 == other.0
    }
}

impl Edition {
    /// The edition of a revision without parents.
    pub fn genesis() -> (result: Edition)
        ensures
            result@ == 0,
    {
        Edition(0)
    }

    /// The edition of the given depth.
    pub fn new(depth: u64) -> (result: Edition)
        ensures
            result@ == depth,
    {
        Edition(depth)
    }

    /// The edition one deeper.
    pub fn successor(&self) -> (result: Edition)
        requires
            self@ < u64::MAX,
        ensures
            result@ == self@ + 1,
    {
        Edition(self.0 + 1)
    }

    /// The deeper of two editions.
    pub fn max(self, other: Edition) -> (result: Edition)
        ensures
            result@ == (if self@ >= other@ {
                self@
            } else {
                other@
            }),
    {
        if self.0 >= other.0 {
            self
        } else {
            other
        }
    }
}

/// Who acts on a branch: the branch and the operator that advances it.
///
/// A branch converges across the sessions of a profile, but each session has
/// an operator of its own, so that an origin is one sequential actor.
#[derive(Clone, Debug, PartialEq, Eq, Hash)]
pub struct Origin {
    /// The entity of the branch.
    pub lineage: Entity,
    /// The operator.
    pub issuer: Did,
}

/// What an [`Origin`] holds.
#[verifier::ext_equal]
pub struct OriginView {
    pub lineage: Seq<char>,
    pub issuer: Seq<char>,
}

impl View for Origin {
    type V = OriginView;

    open spec fn view(&self) -> OriginView {
        OriginView { lineage: self.lineage@, issuer: self.issuer@ }
    }
}

impl Plain for Origin {
    fn copy(&self) -> (result: Self) {
        Origin { lineage: self.lineage.copy(), issuer: self.issuer.copy() }
    }

    fn same(&self, other: &Self) -> (result: bool) {
        self.lineage.same(&other.lineage) && self.issuer.same(&other.issuer)
    }
}

/// What identifies a revision: who minted it, and how deep it is.
#[derive(Clone, Debug, PartialEq, Eq, Hash)]
pub struct Version {
    /// Who minted the revision.
    pub origin: Origin,
    /// How deep it is.
    pub edition: Edition,
}

/// What a [`Version`] holds.
#[verifier::ext_equal]
pub struct VersionView {
    pub origin: OriginView,
    pub edition: nat,
}

impl View for Version {
    type V = VersionView;

    open spec fn view(&self) -> VersionView {
        VersionView { origin: self.origin@, edition: self.edition@ }
    }
}

impl Plain for Version {
    fn copy(&self) -> (result: Self) {
        Version { origin: self.origin.copy(), edition: self.edition }
    }

    fn same(&self, other: &Self) -> (result: bool) {
        self.origin.same(&other.origin) && self.edition.same(&other.edition)
    }
}

impl Version {
    /// The version of an origin at an edition.
    pub fn new(origin: Origin, edition: Edition) -> (result: Version)
        ensures
            result@ == (VersionView { origin: origin@, edition: edition@ }),
    {
        Version { origin, edition }
    }
}

/// A revision as a tree refers to it: by what its origin was hashed to, which
/// does not tell the branch or the operator.
#[derive(Clone, Debug, PartialEq, Eq, Hash)]
pub struct SkipLink {
    /// The hashed origin.
    pub origin: Vec<u8>,
    /// How deep the revision is.
    pub edition: Edition,
}

/// What a [`SkipLink`] holds.
#[verifier::ext_equal]
pub struct SkipLinkView {
    pub origin: Seq<u8>,
    pub edition: nat,
}

impl View for SkipLink {
    type V = SkipLinkView;

    open spec fn view(&self) -> SkipLinkView {
        SkipLinkView { origin: self.origin@, edition: self.edition@ }
    }
}

impl Plain for SkipLink {
    fn copy(&self) -> (result: Self) {
        SkipLink { origin: self.origin.copy(), edition: self.edition }
    }

    fn same(&self, other: &Self) -> (result: bool) {
        self.origin.same(&other.origin) && self.edition.same(&other.edition)
    }
}

/// Whether the roots are in ascending order, each once.
pub open spec fn ascending(roots: Seq<Seq<u8>>) -> bool {
    forall|i: int, j: int|
        0 <= i < j < roots.len() ==> lex_lt(#[trigger] roots[i], #[trigger] roots[j])
}

/// A state of a branch at a point in its history.
#[derive(Clone, Debug, PartialEq, Eq)]
pub struct Revision {
    /// The repository.
    pub subject: Did,
    /// The operator that minted the revision.
    pub issuer: Did,
    /// The profile that authorized it.
    pub authority: Did,
    /// The branch that it was minted on.
    pub branch: String,
    /// The root of the tree.
    pub tree: TreeReference,
    /// The roots that this revision is based on, in ascending order, each once.
    pub cause: Vec<TreeReference>,
    /// How deep the revision is.
    pub edition: Edition,
    /// The issuer's signature; empty until the revision is signed.
    pub signature: Vec<u8>,
}

/// What a [`Revision`] holds.
#[verifier::ext_equal]
pub struct RevisionView {
    pub subject: Seq<char>,
    pub issuer: Seq<char>,
    pub authority: Seq<char>,
    pub branch: Seq<char>,
    pub tree: Seq<u8>,
    pub cause: Seq<Seq<u8>>,
    pub edition: nat,
    pub signature: Seq<u8>,
}

impl RevisionView {
    /// Whether the causes are written in the one way in which a set of roots
    /// is written.
    pub open spec fn well_formed(self) -> bool {
        ascending(self.cause)
    }

    /// The entity of the branch that the revision was minted on.
    pub open spec fn lineage(self) -> Seq<char> {
        branch_uri(origin_uri(self.authority, self.subject), self.branch)
    }

    /// Who minted the revision.
    pub open spec fn origin(self) -> OriginView {
        OriginView { lineage: self.lineage(), issuer: self.issuer }
    }

    /// What identifies the revision.
    pub open spec fn version(self) -> VersionView {
        VersionView { origin: self.origin(), edition: self.edition }
    }
}

/// The first revision of a branch.
pub open spec fn first_revision(
    tree: Seq<u8>,
    subject: Seq<char>,
    branch: Seq<char>,
    issuer: Seq<char>,
    authority: Seq<char>,
) -> RevisionView {
    RevisionView {
        subject,
        issuer,
        authority,
        branch,
        tree,
        cause: Seq::empty(),
        edition: 0,
        signature: Seq::empty(),
    }
}

/// The revision that follows `base`.
pub open spec fn next_revision(
    base: RevisionView,
    tree: Seq<u8>,
    branch: Seq<char>,
    issuer: Seq<char>,
    authority: Seq<char>,
) -> RevisionView {
    RevisionView {
        subject: base.subject,
        issuer,
        authority,
        branch,
        tree,
        cause: seq![base.tree],
        edition: base.edition + 1,
        signature: Seq::empty(),
    }
}

/// The revision that joins `base` with `upstream`.
pub open spec fn merge_revision(
    base: RevisionView,
    upstream: RevisionView,
    tree: Seq<u8>,
    branch: Seq<char>,
    issuer: Seq<char>,
    authority: Seq<char>,
) -> RevisionView {
    RevisionView {
        subject: base.subject,
        issuer,
        authority,
        branch,
        tree,
        cause: seq![upstream.tree],
        edition: if base.edition >= upstream.edition {
            base.edition + 1
        } else {
            upstream.edition + 1
        },
        signature: Seq::empty(),
    }
}

impl View for Revision {
    type V = RevisionView;

    open spec fn view(&self) -> RevisionView {
        RevisionView {
            subject: self.subject@,
            issuer: self.issuer@,
            authority: self.authority@,
            branch: self.branch@,
            tree: self.tree@,
            cause: views(self.cause@),
            edition: self.edition@,
            signature: self.signature@,
        }
    }
}

impl Plain for Revision {
    fn copy(&self) -> (result: Self) {
        Revision {
            subject: self.subject.copy(),
            issuer: self.issuer.copy(),
            authority: self.authority.copy(),
            branch: self.branch.copy(),
            tree: self.tree,
            cause: copy_all(&self.cause),
            edition: self.edition,
            signature: self.signature.copy(),
        }
    }

    fn same(&self, other: &Self) -> (result: bool) {
        self.subject.same(&other.subject) && self.issuer.same(&other.issuer)
            && self.authority.same(&other.authority) && self.branch.same(&other.branch)
            && self.tree.same(&other.tree) && same_all(&self.cause, &other.cause)
            && self.edition.same(&other.edition) && self.signature.same(&other.signature)
    }
}

impl Revision {
    /// The first revision of a branch.
    pub fn new(
        tree: TreeReference,
        subject: Did,
        branch: &str,
        issuer: Did,
        authority: Did,
    ) -> (result: Revision)
        ensures
            result@ == first_revision(tree@, subject@, branch@, issuer@, authority@),
            result@.well_formed(),
    {
        let result = Revision {
            subject,
            issuer,
            authority,
            branch: branch.to_owned(),
            tree,
            cause: Vec::new(),
            edition: Edition::genesis(),
            signature: Vec::new(),
        };
        assert(result@.cause =~= Seq::empty());
        assert(result@.signature =~= Seq::empty());
        result
    }

    /// The revision that follows this one. Whoever advances a revision has
    /// seen it, so it is one deeper whoever the issuer is.
    pub fn advance(
        &self,
        tree: TreeReference,
        branch: &str,
        issuer: Did,
        authority: Did,
    ) -> (result: Revision)
        requires
            self@.edition < u64::MAX,
        ensures
            result@ == next_revision(self@, tree@, branch@, issuer@, authority@),
            result@.well_formed(),
    {
        let mut cause: Vec<TreeReference> = Vec::new();
        cause.push(self.tree);
        let result = Revision {
            subject: self.subject.copy(),
            issuer,
            authority,
            branch: branch.to_owned(),
            tree,
            cause,
            edition: self.edition.successor(),
            signature: Vec::new(),
        };
        assert(result@.cause =~= seq![self@.tree]);
        assert(result@.signature =~= Seq::empty());
        result
    }

    /// The revision that joins this one with `upstream`. It has seen both, so
    /// it is one deeper than the deeper of them; the tree of this one is part
    /// of the merged tree, so that only that of `upstream` counts as cause.
    pub fn merge(
        &self,
        upstream: &Revision,
        tree: TreeReference,
        branch: &str,
        issuer: Did,
        authority: Did,
    ) -> (result: Revision)
        requires
            self@.edition < u64::MAX,
            upstream@.edition < u64::MAX,
        ensures
            result@ == merge_revision(self@, upstream@, tree@, branch@, issuer@, authority@),
            result@.well_formed(),
    {
        let mut cause: Vec<TreeReference> = Vec::new();
        cause.push(upstream.tree);
        let result = Revision {
            subject: self.subject.copy(),
            issuer,
            authority,
            branch: branch.to_owned(),
            tree,
            cause,
            edition: self.edition.max(upstream.edition).successor(),
            signature: Vec::new(),
        };
        assert(result@.cause =~= seq![upstream@.tree]);
        assert(result@.signature =~= Seq::empty());
        result
    }

    /// The entity of the branch that the revision was minted on.
    pub fn lineage(&self) -> (result: Entity)
        ensures
            result@ == self@.lineage(),
    {
        let origin = schema::Origin::new(self.authority.copy(), self.subject.copy());
        schema::Branch::new(&origin, self.branch.as_str()).this
    }

    /// Who minted the revision.
    pub fn origin(&self) -> (result: Origin)
        ensures
            result@ == self@.origin(),
    {
        Revision::origin_of(&self.lineage(), &self.issuer)
    }

    /// The origin of a branch that `issuer` advances.
    pub fn origin_of(lineage: &Entity, issuer: &Did) -> (result: Origin)
        ensures
            result@ == (OriginView { lineage: lineage@, issuer: issuer@ }),
    {
        Origin { lineage: lineage.copy(), issuer: issuer.copy() }
    }

    /// What identifies the revision.
    pub fn version(&self) -> (result: Version)
        ensures
            result@ == self@.version(),
    {
        Version::new(self.origin(), self.edition)
    }

    /// The record that the revision leaves in its tree: its parents, its skip
    /// links and who made it. It is not signed yet.
    pub fn record(&self, parents: Vec<Version>, skips: Vec<SkipLink>) -> (result: RevisionRecord)
        ensures
            result@ == record_of(self@, views(parents@), views(skips@)),
    {
        let result = RevisionRecord {
            lineage: self.lineage(),
            issuer: self.issuer.copy(),
            authority: self.authority.copy(),
            parents,
            skips,
            signature: Vec::new(),
        };
        assert(result@.signature =~= Seq::empty());
        result
    }
}

/// What a revision states about itself in its own tree.
#[derive(Clone, Debug, PartialEq, Eq)]
pub struct RevisionRecord {
    /// The entity of the branch.
    pub lineage: Entity,
    /// The operator.
    pub issuer: Did,
    /// The profile.
    pub authority: Did,
    /// The revisions that this one was minted on top of.
    pub parents: Vec<Version>,
    /// Ancestors that a walk through the history can leap to.
    pub skips: Vec<SkipLink>,
    /// The issuer's signature; empty until the record is signed.
    pub signature: Vec<u8>,
}

/// What a [`RevisionRecord`] holds.
#[verifier::ext_equal]
pub struct RecordView {
    pub lineage: Seq<char>,
    pub issuer: Seq<char>,
    pub authority: Seq<char>,
    pub parents: Seq<VersionView>,
    pub skips: Seq<SkipLinkView>,
    pub signature: Seq<u8>,
}

impl View for RevisionRecord {
    type V = RecordView;

    open spec fn view(&self) -> RecordView {
        RecordView {
            lineage: self.lineage@,
            issuer: self.issuer@,
            authority: self.authority@,
            parents: views(self.parents@),
            skips: views(self.skips@),
            signature: self.signature@,
        }
    }
}

impl Plain for RevisionRecord {
    fn copy(&self) -> (result: Self) {
        RevisionRecord {
            lineage: self.lineage.copy(),
            issuer: self.issuer.copy(),
            authority: self.authority.copy(),
            parents: copy_all(&self.parents),
            skips: copy_all(&self.skips),
            signature: self.signature.copy(),
        }
    }

    fn same(&self, other: &Self) -> (result: bool) {
        self.lineage.same(&other.lineage) && self.issuer.same(&other.issuer)
            && self.authority.same(&other.authority) && same_all(&self.parents, &other.parents)
            && same_all(&self.skips, &other.skips) && self.signature.same(&other.signature)
    }
}

/// The record of a revision, before it is signed.
pub open spec fn record_of(
    revision: RevisionView,
    parents: Seq<VersionView>,
    skips: Seq<SkipLinkView>,
) -> RecordView {
    RecordView {
        lineage: revision.lineage(),
        issuer: revision.issuer,
        authority: revision.authority,
        parents,
        skips,
        signature: Seq::empty(),
    }
}

/// One of the three orders in which a tree holds each fact.
#[derive(Clone, Copy, Debug, PartialEq, Eq, Hash)]
pub enum Index {
    /// By entity.
    Entity,
    /// By attribute.
    Attribute,
    /// By value.
    Value,
}

/// An entry of a tree: a fact in one of its orders, tagged with the version
/// of the revision that added it.
#[derive(Clone, Debug, PartialEq, Eq)]
pub struct Entry {
    /// The order.
    pub index: Index,
    /// The fact.
    pub artifact: Artifact,
    /// The version.
    pub version: Version,
}

/// What an [`Entry`] holds.
#[verifier::ext_equal]
pub struct EntryView {
    pub index: Index,
    pub artifact: crate::artifact::ArtifactView,
    pub version: VersionView,
}

impl View for Entry {
    type V = EntryView;

    open spec fn view(&self) -> EntryView {
        EntryView { index: self.index, artifact: self.artifact@, version: self.version@ }
    }
}

/// The fact that holds a revision's encoded record.
pub open spec fn record_artifact(
    entity: Seq<char>,
    encoded: Seq<u8>,
) -> crate::artifact::ArtifactView {
    crate::artifact::ArtifactView {
        the: "dialog.db/revision"@,
        of: entity,
        is: ValueView::Record(encoded),
        cause: None,
    }
}

/// One fact in all three orders.
pub open spec fn in_all_orders(
    artifact: crate::artifact::ArtifactView,
    version: VersionView,
) -> Seq<EntryView> {
    seq![
        EntryView { index: Index::Entity, artifact, version },
        EntryView { index: Index::Attribute, artifact, version },
        EntryView { index: Index::Value, artifact, version },
    ]
}

impl Revision {
    /// The entries that put the revision's record in its tree: one fact on
    /// the revision's entity, in all three orders, so that it is found like
    /// any other. `entity` names the revision and `encoded` is its record in
    /// bytes.
    ///
    /// The root of the tree is not part of the record, since a tree cannot
    /// hold its own root.
    pub fn record_entries(&self, entity: &Entity, encoded: &Vec<u8>) -> (result: Vec<Entry>)
        ensures
            views(result@) == in_all_orders(
                record_artifact(entity@, encoded@),
                self@.version(),
            ),
    {
        let version = self.version();
        let artifact = Artifact {
            the: Attribute::new("dialog.db/revision"),
            of: entity.copy(),
            is: Value::Record(encoded.copy()),
            cause: None,
        };
        let mut entries: Vec<Entry> = Vec::new();
        entries.push(
            Entry { index: Index::Entity, artifact: artifact.copy(), version: version.copy() },
        );
        entries.push(
            Entry { index: Index::Attribute, artifact: artifact.copy(), version: version.copy() },
        );
        entries.push(Entry { index: Index::Value, artifact, version });
        assert(views(entries@) =~= in_all_orders(
            record_artifact(entity@, encoded@),
            self@.version(),
        ));
        entries
    }
}

/// A set of causes is written in one way only: revisions that hold the same
/// roots hold them in the same order.
pub proof fn law_causes_are_sets(a: Seq<Seq<u8>>, b: Seq<Seq<u8>>)
    requires
        ascending(a),
        ascending(b),
        a.to_set() == b.to_set(),
    ensures
        a == b,
    decreases a.len(),
{
    assert forall|root: Seq<u8>|
        #![trigger a.contains(root)]
        #![trigger b.contains(root)]
        a.contains(root) <==> b.contains(root) by {
        assert(a.to_set().contains(root) <==> a.contains(root));
        assert(b.to_set().contains(root) <==> b.contains(root));
    }
    if a.len() == 0 {
        if b.len() > 0 {
            assert(b.contains(b[0]));
        }
        assert(a =~= b);
    } else {
        assert(a.contains(a[0]));
        assert(b.len() > 0);
        assert(b.contains(b[0]));
        let i = choose|i: int| 0 <= i < b.len() && b[i] == a[0];
        let j = choose|j: int| 0 <= j < a.len() && a[j] == b[0];
        if i > 0 && j > 0 {
            assert(lex_lt(b[0], b[i]) && lex_lt(a[0], a[j]));
            lemma_lex_transitive(a[0], b[0], a[0]);
            lemma_lex_irreflexive(a[0]);
        }
        assert(a[0] == b[0]);
        let rest = a.drop_first();
        let other = b.drop_first();
        assert(ascending(rest)) by {
            assert forall|i: int, j: int| 0 <= i < j < rest.len() implies lex_lt(
                #[trigger] rest[i],
                #[trigger] rest[j],
            ) by {
                assert(lex_lt(a[i + 1], a[j + 1]));
            }
        }
        assert(ascending(other)) by {
            assert forall|i: int, j: int| 0 <= i < j < other.len() implies lex_lt(
                #[trigger] other[i],
                #[trigger] other[j],
            ) by {
                assert(lex_lt(b[i + 1], b[j + 1]));
            }
        }
        assert forall|root: Seq<u8>| rest.contains(root) implies other.contains(root) by {
            let k = choose|k: int| 0 <= k < rest.len() && rest[k] == root;
            assert(a[k + 1] == root);
            assert(a.contains(root));
            lemma_lex_irreflexive(root);
            assert(lex_lt(a[0], a[k + 1]));
            let m = choose|m: int| 0 <= m < b.len() && b[m] == root;
            assert(other[m - 1] == root);
        }
        assert forall|root: Seq<u8>| other.contains(root) implies rest.contains(root) by {
            let k = choose|k: int| 0 <= k < other.len() && other[k] == root;
            assert(b[k + 1] == root);
            assert(b.contains(root));
            lemma_lex_irreflexive(root);
            assert(lex_lt(b[0], b[k + 1]));
            let m = choose|m: int| 0 <= m < a.len() && a[m] == root;
            assert(rest[m - 1] == root);
        }
        assert(rest.to_set() =~= other.to_set());
        law_causes_are_sets(rest, other);
        assert(a =~= seq![a[0]] + rest);
        assert(b =~= seq![b[0]] + other);
    }
}

/// A revision is deeper than the one that it follows.
pub proof fn law_editions_advance(
    base: RevisionView,
    tree: Seq<u8>,
    branch: Seq<char>,
    issuer: Seq<char>,
    authority: Seq<char>,
)
    ensures
        next_revision(base, tree, branch, issuer, authority).edition > base.edition,
        next_revision(base, tree, branch, issuer, authority).cause.contains(base.tree),
{
    assert(next_revision(base, tree, branch, issuer, authority).cause[0] == base.tree);
}

/// A merge is deeper than both revisions that it joins, by one.
pub proof fn law_merges_are_deeper_than_both(
    base: RevisionView,
    upstream: RevisionView,
    tree: Seq<u8>,
    branch: Seq<char>,
    issuer: Seq<char>,
    authority: Seq<char>,
)
    ensures
        ({
            let merge = merge_revision(base, upstream, tree, branch, issuer, authority);
            &&& merge.edition > base.edition
            &&& merge.edition > upstream.edition
            &&& merge.edition == base.edition + 1 || merge.edition == upstream.edition + 1
        }),
{
}

/// Revisions of the same depth by different issuers are told apart by their
/// versions.
pub proof fn law_issuers_are_told_apart(a: RevisionView, b: RevisionView)
    requires
        a.issuer != b.issuer,
    ensures
        a.origin() != b.origin(),
        a.version() != b.version(),
{
}

/// Revisions of different branches, or of different repositories, are told
/// apart by their versions, unless canonical bytes collide.
pub proof fn law_lineages_are_told_apart(a: RevisionView, b: RevisionView)
    requires
        crate::encoding_laws::fits(a.authority) && crate::encoding_laws::fits(b.authority),
        crate::encoding_laws::fits(a.subject) && crate::encoding_laws::fits(b.subject),
        crate::encoding_laws::fits(a.branch) && crate::encoding_laws::fits(b.branch),
        crate::encoding_laws::fits(origin_uri(a.authority, a.subject)),
        crate::encoding_laws::fits(origin_uri(b.authority, b.subject)),
        !schema::collide(
            schema::origin_content(a.authority, a.subject).encoding(),
            schema::origin_content(b.authority, b.subject).encoding(),
        ),
        !schema::collide(
            schema::branch_content(origin_uri(a.authority, a.subject), a.branch).encoding(),
            schema::branch_content(origin_uri(b.authority, b.subject), b.branch).encoding(),
        ),
        a.branch != b.branch || a.subject != b.subject || a.authority != b.authority,
    ensures
        a.origin() != b.origin(),
        a.version() != b.version(),
{
    if a.lineage() == b.lineage() {
        schema::law_branches_are_told_apart(
            origin_uri(a.authority, a.subject),
            a.branch,
            origin_uri(b.authority, b.subject),
            b.branch,
        );
        schema::law_origins_are_told_apart(a.authority, a.subject, b.authority, b.subject);
    }
}

/// The first revision stands on nothing: it has no causes and is not deep. It
/// holds what it was minted with and is not signed.
pub proof fn law_first_revisions(
    tree: Seq<u8>,
    subject: Seq<char>,
    branch: Seq<char>,
    issuer: Seq<char>,
    authority: Seq<char>,
)
    ensures
        ({
            let first = first_revision(tree, subject, branch, issuer, authority);
            &&& first.edition == 0
            &&& first.cause.len() == 0
            &&& first.signature.len() == 0
            &&& first.tree == tree
            &&& first.subject == subject
            &&& first.branch == branch
            &&& first.issuer == issuer
            &&& first.authority == authority
        }),
{
}

/// A revision that follows another, and one that joins two, stay in the
/// repository of the one that they are made from, hold what they were minted
/// with and are not signed. The one is a step deeper than what it follows and
/// names its tree as the one cause; the other is a step deeper than the deeper
/// of the two and names the tree that was joined in.
pub proof fn law_later_revisions(
    base: RevisionView,
    upstream: RevisionView,
    tree: Seq<u8>,
    branch: Seq<char>,
    issuer: Seq<char>,
    authority: Seq<char>,
)
    ensures
        ({
            let next = next_revision(base, tree, branch, issuer, authority);
            &&& next.edition == base.edition + 1
            &&& next.cause == seq![base.tree]
            &&& next.signature.len() == 0
            &&& next.tree == tree
            &&& next.subject == base.subject
            &&& next.branch == branch
            &&& next.issuer == issuer
            &&& next.authority == authority
        }),
        ({
            let joined = merge_revision(base, upstream, tree, branch, issuer, authority);
            &&& joined.edition > base.edition && joined.edition > upstream.edition
            &&& joined.edition == base.edition + 1 || joined.edition == upstream.edition + 1
            &&& joined.cause == seq![upstream.tree]
            &&& joined.signature.len() == 0
            &&& joined.tree == tree
            &&& joined.subject == base.subject
            &&& joined.branch == branch
            &&& joined.issuer == issuer
            &&& joined.authority == authority
        }),
{
}

/// What identifies a revision: the branch for the profile that authorized it,
/// the operator that minted it, and how deep it is.
pub proof fn law_versions_identify(revision: RevisionView)
    ensures
        revision.version().edition == revision.edition,
        revision.version().origin.issuer == revision.issuer,
        revision.version().origin.lineage == branch_uri(
            origin_uri(revision.authority, revision.subject),
            revision.branch,
        ),
        revision.version().origin == revision.origin(),
        revision.origin().lineage == revision.lineage(),
{
}

/// The record of a revision holds the parents and the skip links that it is
/// given, in their order, and who made the revision on which branch.
pub proof fn law_records_hold_what_they_are_given(
    revision: RevisionView,
    parents: Seq<VersionView>,
    skips: Seq<SkipLinkView>,
)
    ensures
        ({
            let record = record_of(revision, parents, skips);
            &&& record.parents == parents
            &&& record.skips == skips
            &&& record.issuer == revision.issuer
            &&& record.authority == revision.authority
            &&& record.lineage == branch_uri(
                origin_uri(revision.authority, revision.subject),
                revision.branch,
            )
            &&& record.signature.len() == 0
        }),
{
}

/// A record is put in a tree as one fact on the entity of the revision, once in
/// each order, and each entry is tagged with the version of the revision.
pub proof fn law_records_are_found_in_every_order(
    entity: Seq<char>,
    encoded: Seq<u8>,
    version: VersionView,
    index: Index,
)
    ensures
        ({
            let entries = in_all_orders(record_artifact(entity, encoded), version);
            &&& entries.len() == 3
            &&& exists|i: int| 0 <= i < 3 && (#[trigger] entries[i]).index == index
            &&& forall|i: int|
                0 <= i < 3 ==> (#[trigger] entries[i]).version == version && entries[i].artifact
                    == (crate::artifact::ArtifactView {
                    the: "dialog.db/revision"@,
                    of: entity,
                    is: ValueView::Record(encoded),
                    cause: None,
                })
        }),
{
    let entries = in_all_orders(record_artifact(entity, encoded), version);
    assert(entries[0].index == Index::Entity);
    assert(entries[1].index == Index::Attribute);
    assert(entries[2].index == Index::Value);
}

/// The root of the empty tree is thirty-two zeros.
pub proof fn law_the_empty_tree(i: int)
    ensures
        empty_tree().len() == 32,
        0 <= i < 32 ==> empty_tree()[i] == 0,
{
}

} // verus!
