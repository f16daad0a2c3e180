//! What a branch tracks: other branches, here or on a remote.

use crate::plain::{copy_all, same_all, views, Plain};
use crate::revision::{empty_tree, TreeReference};
use vstd::prelude::*;

verus! {

/// A branch that another one tracks, and the tree of it that was last synced.
#[derive(Clone, Debug, PartialEq, Eq)]
pub enum Upstream {
    /// A branch of the same repository.
    Local {
        /// The branch.
        branch: String,
        /// The tree at the last sync.
        tree: TreeReference,
    },
    /// A branch on a remote.
    Remote {
        /// The remote.
        remote: String,
        /// The branch.
        branch: String,
        /// The tree at the last sync.
        tree: TreeReference,
    },
}

/// Which branch is tracked.
#[verifier::ext_equal]
pub enum Target {
    Local { branch: Seq<char> },
    Remote { remote: Seq<char>, branch: Seq<char> },
}

/// What an [`Upstream`] holds.
#[verifier::ext_equal]
pub struct UpstreamView {
    pub target: Target,
    pub tree: Seq<u8>,
}

impl UpstreamView {
    /// The same branch, synced at another tree.
    pub open spec fn with_tree(self, tree: Seq<u8>) -> UpstreamView {
        UpstreamView { target: self.target, tree }
    }
}

impl View for Upstream {
    type V = UpstreamView;

    open spec fn view(&self) -> UpstreamView {
        match self {
            Upstream::Local { branch, tree } => UpstreamView {
                target: Target::Local { branch: branch@ },
                tree: tree@,
            },
            Upstream::Remote { remote, branch, tree } => UpstreamView {
                target: Target::Remote { remote: remote@, branch: branch@ },
                tree: tree@,
            },
        }
    }
}

impl Plain for Upstream {
    fn copy(&self) -> (result: Self) {
        match self {
            Upstream::Local { branch, tree } => Upstream::Local {
                branch: branch.copy(),
                tree: *tree,
            },
            Upstream::Remote { remote, branch, tree } => Upstream::Remote {
                remote: remote.copy(),
                branch: branch.copy(),
                tree: *tree,
            },
        }
    }

    fn same(&self, other: &Self) -> (result: bool) {
        self.same_target(other) && self.tree().same(other.tree())
    }
}

impl Upstream {
    /// A branch of the same repository, not synced yet.
    pub fn local(branch: &str) -> (result: Upstream)
        ensures
            result@ == (UpstreamView {
                target: Target::Local { branch: branch@ },
                tree: empty_tree(),
            }),
    {
        Upstream::Local { branch: branch.to_owned(), tree: TreeReference::default() }
    }

    /// A branch on a remote, not synced yet.
    pub fn remote(remote: &str, branch: &str) -> (result: Upstream)
        ensures
            result@ == (UpstreamView {
                target: Target::Remote { remote: remote@, branch: branch@ },
                tree: empty_tree(),
            }),
    {
        Upstream::Remote {
            remote: remote.to_owned(),
            branch: branch.to_owned(),
            tree: TreeReference::default(),
        }
    }

    /// The tree at the last sync.
    pub fn tree(&self) -> (result: &TreeReference)
        ensures
            result@ == self@.tree,
    {
        match self {
            Upstream::Local { tree, .. } => tree,
            Upstream::Remote { tree, .. } => tree,
        }
    }

    /// The same branch, synced at another tree.
    pub fn with_tree(self, tree: TreeReference) -> (result: Upstream)
        ensures
            result@ == self@.with_tree(tree@),
    {
        match self {
            Upstream::Local { branch, .. } => Upstream::Local { branch, tree },
            Upstream::Remote { remote, branch, .. } => Upstream::Remote { remote, branch, tree },
        }
    }

    /// Whether both are the same branch, whatever was synced of it.
    pub fn same_target(&self, other: &Upstream) -> (result: bool)
        ensures
            result == (self@.target == other@.target),
    {
        match (self, other) {
            (Upstream::Local { branch: a, .. }, Upstream::Local { branch: b, .. }) => a.same(b),
            (
                Upstream::Remote { remote: a, branch: c, .. },
                Upstream::Remote { remote: b, branch: d, .. },
            ) => a.same(b) && c.same(d),
            _ => false,
        }
    }
}

/// All that a branch tracks. The first entry is the default, and each branch
/// is tracked once.
#[derive(Clone, Debug, PartialEq, Eq)]
pub struct Upstreams {
    /// The entries.
    pub entries: Vec<Upstream>,
}

impl View for Upstreams {
    type V = Seq<UpstreamView>;

    open spec fn view(&self) -> Seq<UpstreamView> {
        views(self.entries@)
    }
}

impl Plain for Upstreams {
    fn copy(&self) -> (result: Self) {
        Upstreams { entries: copy_all(&self.entries) }
    }

    fn same(&self, other: &Self) -> (result: bool) {
        same_all(&self.entries, &other.entries)
    }
}

/// Whether no branch is tracked twice.
pub open spec fn unique_targets(entries: Seq<UpstreamView>) -> bool {
    forall|i: int, j: int|
        0 <= i < j < entries.len() ==> (#[trigger] entries[i]).target != (
        #[trigger] entries[j]).target
}

/// Where the branch is tracked: the first entry for it.
pub open spec fn tracked_at(entries: Seq<UpstreamView>, target: Target, i: int) -> bool {
    &&& 0 <= i < entries.len()
    &&& entries[i].target == target
    &&& forall|j: int| 0 <= j < i ==> (#[trigger] entries[j]).target != target
}

/// The first entry for the branch, if it is tracked.
pub open spec fn find(entries: Seq<UpstreamView>, target: Target) -> Option<UpstreamView> {
    if exists|i: int| tracked_at(entries, target, i) {
        Some(entries[choose|i: int| tracked_at(entries, target, i)])
    } else {
        None
    }
}

/// The entries with `entry` in the place of the one for the same branch, or
/// behind all others where that branch is not tracked yet.
pub open spec fn upsert(entries: Seq<UpstreamView>, entry: UpstreamView) -> Seq<UpstreamView> {
    if exists|i: int| tracked_at(entries, entry.target, i) {
        entries.update(choose|i: int| tracked_at(entries, entry.target, i), entry)
    } else {
        entries.push(entry)
    }
}

/// The remote of the first entry that is on one.
pub open spec fn remote_of(entries: Seq<UpstreamView>) -> Option<Seq<char>>
    decreases entries.len(),
{
    if entries.len() == 0 {
        None
    } else {
        match entries[0].target {
            Target::Remote { remote, .. } => Some(remote),
            Target::Local { .. } => remote_of(entries.drop_first()),
        }
    }
}

/// A branch is tracked first in one place only.
proof fn lemma_tracked_once(entries: Seq<UpstreamView>, target: Target, i: int, j: int)
    requires
        tracked_at(entries, target, i),
        tracked_at(entries, target, j),
    ensures
        i == j,
{
}

/// A branch that no entry is for is tracked nowhere.
proof fn lemma_untracked(entries: Seq<UpstreamView>, target: Target)
    requires
        forall|i: int| 0 <= i < entries.len() ==> (#[trigger] entries[i]).target != target,
    ensures
        !exists|i: int| tracked_at(entries, target, i),
{
}

/// A branch that an entry is for is tracked somewhere, not after that entry.
proof fn lemma_tracked(entries: Seq<UpstreamView>, target: Target, k: int) -> (i: int)
    requires
        0 <= k < entries.len(),
        entries[k].target == target,
    ensures
        tracked_at(entries, target, i),
        i <= k,
    decreases k,
{
    if exists|j: int| 0 <= j < k && (#[trigger] entries[j]).target == target {
        let j = choose|j: int| 0 <= j < k && (#[trigger] entries[j]).target == target;
        lemma_tracked(entries, target, j)
    } else {
        k
    }
}

impl Default for Upstreams {
    fn default() -> (result: Upstreams)
        ensures
            result@ == Seq::<UpstreamView>::empty(),
    {
        let result = Upstreams { entries: Vec::new() };
        assert(result@ =~= Seq::empty());
        result
    }
}

impl Upstreams {
    /// The entry that a pull, a push or a fetch without a target is about.
    pub fn default_upstream(&self) -> (result: Option<&Upstream>)
        ensures
            match result {
                Some(entry) => self@.len() > 0 && entry@ == self@[0],
                None => self@.len() == 0,
            },
    {
        if self.entries.len() == 0 {
            None
        } else {
            Some(&self.entries[0])
        }
    }

    /// Where the entry for the same branch as `target` stands.
    fn position(&self, target: &Upstream) -> (result: Option<usize>)
        ensures
            match result {
                Some(i) => tracked_at(self@, target@.target, i as int),
                None => !exists|i: int| tracked_at(self@, target@.target, i),
            },
    {
        let mut i: usize = 0;
        while i < self.entries.len()
            invariant
                i <= self.entries@.len(),
                forall|j: int| 0 <= j < i ==> (#[trigger] self@[j]).target != target@.target,
            decreases self.entries@.len() - i,
        {
            assert(self@[i as int] == self.entries@[i as int]@);
            if self.entries[i].same_target(target) {
                return Some(i);
            }
            i += 1;
        }
        proof {
            lemma_untracked(self@, target@.target);
        }
        None
    }

    /// The entry for the same branch as `target`.
    pub fn find(&self, target: &Upstream) -> (result: Option<&Upstream>)
        ensures
            find(self@, target@.target) == (match result {
                Some(entry) => Some(entry@),
                None => None,
            }),
    {
        match self.position(target) {
            Some(i) => {
                proof {
                    let k = choose|k: int| tracked_at(self@, target@.target, k);
                    lemma_tracked_once(self@, target@.target, i as int, k);
                }
                Some(&self.entries[i])
            },
            None => None,
        }
    }

    /// Puts an entry in the place of the one for the same branch, or behind
    /// all others where that branch is not tracked yet.
    pub fn upsert(&mut self, entry: Upstream)
        ensures
            final(self)@ == upsert(old(self)@, entry@),
    {
        let ghost before = self@;
        match self.position(&entry) {
            Some(i) => {
                proof {
                    let k = choose|k: int| tracked_at(self@, entry@.target, k);
                    lemma_tracked_once(self@, entry@.target, i as int, k);
                }
                self.entries.set(i, entry);
                assert(self@ =~= before.update(i as int, entry@));
            },
            None => {
                self.entries.push(entry);
                assert(self@ =~= before.push(entry@));
            },
        }
    }

    /// The remote of the first entry that is on one.
    pub fn remote_name(&self) -> (result: Option<&str>)
        ensures
            remote_of(self@) == (match result {
                Some(name) => Some(name@),
                None => None,
            }),
    {
        let mut i: usize = 0;
        assert(self@.skip(0) =~= self@);
        while i < self.entries.len()
            invariant
                i <= self.entries@.len(),
                remote_of(self@) == remote_of(self@.skip(i as int)),
            decreases self.entries@.len() - i,
        {
            assert(self@.skip(i as int)[0] == self.entries@[i as int]@);
            match &self.entries[i] {
                Upstream::Remote { remote, .. } => {
                    return Some(remote.as_str());
                },
                Upstream::Local { .. } => {},
            }
            assert(self@.skip(i as int).drop_first() =~= self@.skip(i + 1));
            i += 1;
        }
        None
    }
}

/// After an entry was put in, it is what the branch is tracked by.
pub proof fn law_find_after_upsert(entries: Seq<UpstreamView>, entry: UpstreamView)
    ensures
        find(upsert(entries, entry), entry.target) == Some(entry),
{
    let after = upsert(entries, entry);
    if exists|i: int| tracked_at(entries, entry.target, i) {
        let i = choose|i: int| tracked_at(entries, entry.target, i);
        assert(tracked_at(after, entry.target, i)) by {
            assert forall|j: int| 0 <= j < i implies (#[trigger] after[j]).target
                != entry.target by {
                assert(after[j] == entries[j]);
            }
        }
        let k = choose|k: int| tracked_at(after, entry.target, k);
        lemma_tracked_once(after, entry.target, i, k);
    } else {
        let n = entries.len() as int;
        assert(tracked_at(after, entry.target, n)) by {
            assert forall|j: int| 0 <= j < n implies (#[trigger] after[j]).target
                != entry.target by {
                assert(after[j] == entries[j]);
                if entries[j].target == entry.target {
                    let i = lemma_tracked(entries, entry.target, j);
                }
            }
        }
        let k = choose|k: int| tracked_at(after, entry.target, k);
        lemma_tracked_once(after, entry.target, n, k);
    }
}

/// Putting an entry in leaves the entries for all other branches as they are.
pub proof fn law_upsert_keeps_other_entries(
    entries: Seq<UpstreamView>,
    entry: UpstreamView,
    target: Target,
)
    requires
        target != entry.target,
    ensures
        find(upsert(entries, entry), target) == find(entries, target),
{
    let after = upsert(entries, entry);
    if exists|i: int| tracked_at(entries, target, i) {
        let i = choose|i: int| tracked_at(entries, target, i);
        assert(after[i] == entries[i]);
        assert(tracked_at(after, target, i)) by {
            assert forall|j: int| 0 <= j < i implies (#[trigger] after[j]).target != target by {
                assert(after[j] == entries[j] || after[j] == entry);
            }
        }
        let k = choose|k: int| tracked_at(after, target, k);
        lemma_tracked_once(after, target, i, k);
    } else {
        assert forall|k: int| 0 <= k < after.len() implies (#[trigger] after[k]).target
            != target by {
            if after[k].target == target {
                assert(after[k] == entries[k]);
                let i = lemma_tracked(entries, target, k);
            }
        }
        lemma_untracked(after, target);
    }
}

/// Putting an entry in never makes another branch the default.
pub proof fn law_upsert_keeps_the_default(entries: Seq<UpstreamView>, entry: UpstreamView)
    requires
        entries.len() > 0,
    ensures
        upsert(entries, entry).len() > 0,
        upsert(entries, entry)[0].target == entries[0].target,
{
}

/// Putting an entry in keeps each branch tracked once.
pub proof fn law_upsert_keeps_targets_unique(entries: Seq<UpstreamView>, entry: UpstreamView)
    requires
        unique_targets(entries),
    ensures
        unique_targets(upsert(entries, entry)),
{
    let after = upsert(entries, entry);
    if exists|i: int| tracked_at(entries, entry.target, i) {
        let i = choose|i: int| tracked_at(entries, entry.target, i);
        assert forall|a: int, b: int| 0 <= a < b < after.len() implies (#[trigger] after[a]).target
            != (#[trigger] after[b]).target by {
            assert(entries[a].target == after[a].target);
            assert(entries[b].target == after[b].target);
        }
    } else {
        assert forall|a: int, b: int| 0 <= a < b < after.len() implies (#[trigger] after[a]).target
            != (#[trigger] after[b]).target by {
            assert(after[a] == entries[a]);
            if b < entries.len() {
                assert(after[b] == entries[b]);
            } else if entries[a].target == entry.target {
                let i = lemma_tracked(entries, entry.target, a);
            }
        }
    }
}

/// A branch is tracked by the first entry for it.
pub proof fn law_find_is_the_first(entries: Seq<UpstreamView>, target: Target, i: int)
    requires
        0 <= i < entries.len(),
        entries[i].target == target,
        forall|j: int| 0 <= j < i ==> (#[trigger] entries[j]).target != target,
    ensures
        find(entries, target) == Some(entries[i]),
{
    assert(tracked_at(entries, target, i));
    lemma_tracked_once(entries, target, i, choose|k: int| tracked_at(entries, target, k));
}

/// A branch that no entry is for is not tracked.
pub proof fn law_find_is_exhaustive(entries: Seq<UpstreamView>, target: Target)
    requires
        forall|j: int| 0 <= j < entries.len() ==> (#[trigger] entries[j]).target != target,
    ensures
        find(entries, target) is None,
{
    lemma_untracked(entries, target);
}

/// An entry takes the place of the first one for the same branch, and no other
/// entry changes.
pub proof fn law_upsert_replaces(entries: Seq<UpstreamView>, entry: UpstreamView, i: int)
    requires
        0 <= i < entries.len(),
        entries[i].target == entry.target,
        forall|j: int| 0 <= j < i ==> (#[trigger] entries[j]).target != entry.target,
    ensures
        upsert(entries, entry) == entries.update(i, entry),
{
    assert(tracked_at(entries, entry.target, i));
    let k = choose|k: int| tracked_at(entries, entry.target, k);
    lemma_tracked_once(entries, entry.target, i, k);
}

/// An entry for a branch that is not tracked yet comes behind all others.
pub proof fn law_upsert_appends(entries: Seq<UpstreamView>, entry: UpstreamView)
    requires
        forall|j: int| 0 <= j < entries.len() ==> (#[trigger] entries[j]).target != entry.target,
    ensures
        upsert(entries, entry) == entries.push(entry),
{
    lemma_untracked(entries, entry.target);
}

/// Noting a sync keeps the branch and moves the tree.
pub proof fn law_syncs_keep_the_branch(entry: UpstreamView, tree: Seq<u8>)
    ensures
        entry.with_tree(tree).target == entry.target,
        entry.with_tree(tree).tree == tree,
{
}

/// Blocks are read from the remote of the first entry that is on one, and from
/// none where no entry is.
pub proof fn law_remote_is_the_first(entries: Seq<UpstreamView>, i: int)
    ensures
        0 <= i < entries.len() && entries[i].target is Remote && (forall|j: int|
            0 <= j < i ==> (#[trigger] entries[j]).target is Local) ==> remote_of(entries) == Some(
            entries[i].target->remote,
        ),
        (forall|j: int| 0 <= j < entries.len() ==> (#[trigger] entries[j]).target is Local)
            ==> remote_of(entries) is None,
    decreases entries.len(),
{
    if entries.len() > 0 {
        let rest = entries.drop_first();
        law_remote_is_the_first(rest, i - 1);
        if 0 < i < entries.len() && forall|j: int|
            0 <= j < i ==> (#[trigger] entries[j]).target is Local {
            assert(entries[0].target is Local);
            assert(rest[i - 1] == entries[i]);
            assert forall|j: int| 0 <= j < i - 1 implies (#[trigger] rest[j]).target is Local by {
                assert(rest[j] == entries[j + 1]);
            }
        }
        if forall|j: int| 0 <= j < entries.len() ==> (#[trigger] entries[j]).target is Local {
            assert(entries[0].target is Local);
            assert forall|j: int| 0 <= j < rest.len() implies (
            #[trigger] rest[j]).target is Local by {
                assert(rest[j] == entries[j + 1]);
            }
        }
    }
}

} // verus!
