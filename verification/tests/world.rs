use dialog_repository::artifact::{Artifact, Value};
use dialog_repository::branch::commit::{Applied, Commit};
use dialog_repository::branch::landing::{Noted, Outcomes, Retried};
use dialog_repository::branch::pull::{Integrated, PreparedPull, Pull};
use dialog_repository::branch::transfer::Import;
use dialog_repository::branch::{commit, pull, Branch, BranchReference};
use dialog_repository::changes::Instruction;
use dialog_repository::error::{
    ArtifactError, AuthorityError, CommitError, EditError, LoadBranchError, LookupError,
    OpenRemoteBranchError, PublishError, PullError, ResolveError, SealError, TreeError,
};
use dialog_repository::identity::{Attribute, Did, Entity};
use dialog_repository::memory::{Checkpoint, MemoryError, Version};
use dialog_repository::repository::{Credential, Profile, Repository, SignerCredential};
use dialog_repository::revision::{Edition, Revision, RevisionRecord, TreeReference};
use dialog_repository::schema;
use dialog_repository::session::Operator;
use dialog_repository::upstream::{Upstream, Upstreams};
use std::collections::{BTreeMap, BTreeSet};

type Row = (String, String, String);
type Tree = BTreeSet<Row>;

/// A store of cells and trees, and a session that acts on it.
struct World {
    heads: BTreeMap<String, (u64, Revision)>,
    tracking: BTreeMap<String, (u64, Upstreams)>,
    trees: BTreeMap<[u8; 32], Tree>,
    records: Vec<(dialog_repository::revision::Version, RevisionRecord)>,
    clock: u64,
    operator: Did,
    profile: Did,
    subject: Did,
}

fn stamp(clock: u64) -> Version {
    Version(clock.to_be_bytes().to_vec())
}

fn name(text: &str) -> Artifact {
    fact("user/name", "user:main", text)
}

fn fact(the: &str, of: &str, is: &str) -> Artifact {
    Artifact {
        the: Attribute::new(the),
        of: Entity::new(of),
        is: Value::String(is.to_string()),
        cause: None,
    }
}

fn row(artifact: &Artifact) -> Row {
    let is = match &artifact.is {
        Value::String(text) => text.clone(),
        other => format!("{other:?}"),
    };
    (artifact.the.0.clone(), artifact.of.0.clone(), is)
}

fn sign(did: &Did, text: &str) -> Vec<u8> {
    format!("{}:{}", did.0, text).into_bytes()
}

fn payload(revision: &Revision) -> String {
    format!("{:?}{:?}", revision.tree, revision.edition)
}

fn verify(revision: &Revision) -> Result<(), ArtifactError> {
    if revision.signature == sign(&revision.issuer, &payload(revision)) {
        Ok(())
    } else {
        Err(ArtifactError::InvalidSignature("forged".to_string()))
    }
}

impl World {
    fn new() -> World {
        let mut world = World {
            heads: BTreeMap::new(),
            tracking: BTreeMap::new(),
            trees: BTreeMap::new(),
            records: Vec::new(),
            clock: 0,
            operator: Did::new("did:test:operator"),
            profile: Did::new("did:test:profile"),
            subject: Did::new("did:test:repository"),
        };
        world.trees.insert([0; 32], Tree::new());
        world
    }

    fn identity(&self) -> Operator {
        Operator { profile: self.profile.clone(), did: self.operator.clone() }
    }

    fn repository(&self) -> Repository {
        Repository::from(Credential::Signer(SignerCredential { did: self.subject.clone() }))
    }

    fn key(&self, branch: &str) -> String {
        format!("{}/{}", self.subject.0, branch)
    }

    fn reference(&self, branch: &str) -> BranchReference {
        self.repository().branch(branch)
    }

    fn head_state(&self, branch: &str) -> Option<(Revision, Version)> {
        let (clock, revision) = self.heads.get(&self.key(branch))?;
        Some((revision.clone(), stamp(*clock)))
    }

    fn tracking_state(&self, branch: &str) -> Option<(Upstreams, Version)> {
        let (clock, upstreams) = self.tracking.get(&self.key(branch))?;
        Some((upstreams.clone(), stamp(*clock)))
    }

    fn open(&self, branch: &str) -> Branch {
        self.reference(branch)
            .open()
            .perform(self.head_state(branch), self.tracking_state(branch))
    }

    fn load(&self, branch: &str) -> Result<Branch, LoadBranchError> {
        self.reference(branch)
            .load()
            .perform(self.head_state(branch), self.tracking_state(branch))
    }

    fn refresh(&self, branch: &mut Branch) {
        let name = branch.name().to_string();
        branch
            .refresh(Ok(self.head_state(&name)), Ok(self.tracking_state(&name)))
            .unwrap();
    }

    fn store(&mut self, tree: Tree) -> TreeReference {
        let text = format!("{tree:?}");
        let root = if tree.is_empty() {
            [0; 32]
        } else {
            *blake3::hash(text.as_bytes()).as_bytes()
        };
        self.trees.insert(root, tree);
        TreeReference(root)
    }

    fn tree(&self, root: &TreeReference) -> Tree {
        self.trees[&root.0].clone()
    }

    fn select(&self, branch: &Branch, the: &str) -> Vec<String> {
        let rows = self.tree(&branch.tree());
        rows.iter().filter(|r| r.0 == the).map(|r| r.2.clone()).collect()
    }

    fn write_head(
        &mut self,
        branch: &str,
        checkpoint: &Checkpoint,
        revision: &Revision,
    ) -> Result<Version, PublishError> {
        let key = self.key(branch);
        let actual = self.heads.get(&key).map(|(clock, _)| stamp(*clock));
        if actual != checkpoint.expected {
            return Err(PublishError::from(MemoryError::VersionMismatch {
                expected: checkpoint.expected.clone(),
                actual,
            }));
        }
        self.clock += 1;
        self.heads.insert(key, (self.clock, revision.clone()));
        Ok(stamp(self.clock))
    }

    fn write_tracking(
        &mut self,
        branch: &str,
        checkpoint: &Checkpoint,
        upstreams: &Upstreams,
    ) -> Result<Version, PublishError> {
        let key = self.key(branch);
        let actual = self.tracking.get(&key).map(|(clock, _)| stamp(*clock));
        if actual != checkpoint.expected {
            return Err(PublishError::from(MemoryError::VersionMismatch {
                expected: checkpoint.expected.clone(),
                actual,
            }));
        }
        self.clock += 1;
        self.tracking.insert(key, (self.clock, upstreams.clone()));
        Ok(stamp(self.clock))
    }

    fn track(&mut self, branch: &mut Branch, upstream: Upstream) {
        let name = branch.name().to_string();
        let mut upstreams = branch.upstreams();
        upstreams.upsert(upstream);
        let checkpoint = branch.upstream.checkpoint();
        let version = self.write_tracking(&name, &checkpoint, &upstreams).unwrap();
        branch.upstream.published(upstreams, version);
    }

    fn keep_record(&mut self, tree: &mut Tree, revision: &Revision, record: &RevisionRecord) {
        let version = format!("{:?}", revision.version());
        let entries = revision.record_entries(&Entity::new(&version), &Vec::new());
        for entry in entries {
            tree.insert(row(&entry.artifact));
        }
        self.records.push((revision.version(), record.clone()));
    }

    fn commit(
        &mut self,
        branch: &mut Branch,
        instructions: Vec<Instruction>,
    ) -> Result<Revision, CommitError> {
        let operator = self.operator.clone();
        let name = branch.name().to_string();
        let commit = branch.commit(&instructions);
        let (asked, identified) = commit.identified(Ok(self.identity()))?;
        let before = self.tree(&asked.root);
        let mut tree = before.clone();
        for instruction in asked.changes {
            match instruction {
                Instruction::Assert(artifact) => {
                    tree.insert(row(artifact));
                }
                Instruction::Replace(artifact) => {
                    let new = row(artifact);
                    tree.retain(|r| r.0 != new.0 || r.1 != new.1);
                    tree.insert(new);
                }
                Instruction::Retract(artifact) => {
                    tree.remove(&row(artifact));
                }
            }
        }
        match identified.applied(Ok(tree != before))? {
            Applied::Unchanged(unchanged) => {
                let current = self.head_state(&name).map(|(_, version)| version);
                unchanged.checked(Ok(current))
            }
            Applied::Changed(changed) => {
                let minted = changed.minted(Ok(Vec::new()))?;
                let signature = sign(&operator, &format!("{:?}", minted.record));
                let minted = minted.attested(Ok(signature))?;
                self.keep_record(&mut tree, &minted.revision, &minted.record);
                let stored = minted.rooted(Ok(self.store(tree)))?.imported(Ok(()))?;
                let signature = sign(&operator, &payload(&stored.revision));
                let ready = stored.signed(Ok(signature))?;
                let outcome = self.write_head(&name, &ready.head, &ready.revision);
                ready.published(branch, outcome)
            }
        }
    }

    fn prepare(
        &mut self,
        branch: &Branch,
        from: Option<Upstream>,
    ) -> Result<PreparedPull, PullError> {
        let mut pull = branch.pull();
        if let Some(source) = from {
            pull = pull.from(source);
        }
        let selected = pull.select()?;
        let head = match &selected.upstream {
            Upstream::Local { branch, .. } => Ok(self.open(branch).revision()),
            Upstream::Remote { remote, branch, .. } => {
                let key = format!("{remote}/{branch}");
                Ok(self.heads.get(&key).map(|(_, revision)| revision.clone()))
            }
        };
        let Some(received) = selected.received(head)? else {
            return Ok(PreparedPull::NoOp);
        };
        let verdict = verify(&received.revision);
        let Some(rebase) = received.verified(verdict)? else {
            return Ok(PreparedPull::NoOp);
        };
        let base = self.tree(&rebase.base());
        let local = self.tree(&rebase.local_tree());
        let mut tree = self.tree(&rebase.revision.tree);
        tree.retain(|r| local.contains(r) || !base.contains(r));
        tree.extend(local.difference(&base).cloned());
        let merged_tree = self.store(tree.clone());
        match rebase.integrated(Ok(merged_tree))? {
            Integrated::Adopted(merged) => merged.imported(Ok(())),
            Integrated::Diverged(diverged) => {
                let operator = self.operator.clone();
                let minted = diverged.identified(Ok(self.identity()))?;
                let signature = sign(&operator, &format!("{:?}", minted.record));
                let minted = minted.attested(Ok(signature))?;
                self.keep_record(&mut tree, &minted.revision, &minted.record);
                let minted = minted.rooted(Ok(self.store(tree)))?;
                let signature = sign(&operator, &payload(&minted.revision));
                minted.signed(Ok(signature))?.imported(Ok(()))
            }
        }
    }

    fn land(
        &mut self,
        branch: &mut Branch,
        prepared: PreparedPull,
    ) -> Result<Option<Revision>, PullError> {
        let name = branch.name().to_string();
        let Some(merged) = prepared.begin() else {
            return Ok(None);
        };
        let outcome = self.write_head(&name, &merged.head, &merged.new_revision);
        let marker = merged.head_published(branch, outcome)?;
        let outcome = self.write_tracking(&name, &marker.checkpoint, &marker.upstreams);
        let reread = match marker.published(branch, outcome)? {
            Noted::Done(revision) => return Ok(revision),
            Noted::Reread(reread) => reread,
        };
        let state = Ok(self.tracking_state(&name));
        let marker = match reread.resolved(branch, state)? {
            Retried::Done(revision) => return Ok(revision),
            Retried::Again(marker) => marker,
        };
        let outcome = self.write_tracking(&name, &marker.checkpoint, &marker.upstreams);
        marker.published(branch, outcome)
    }

    fn pull(
        &mut self,
        branch: &mut Branch,
        from: Option<Upstream>,
    ) -> Result<Option<Revision>, PullError> {
        let prepared = self.prepare(branch, from)?;
        self.land(branch, prepared)
    }
}

fn assert_one(the: &str, of: &str, is: &str) -> Vec<Instruction> {
    vec![Instruction::Assert(fact(the, of, is))]
}

fn replace_one(the: &str, of: &str, is: &str) -> Vec<Instruction> {
    vec![Instruction::Replace(fact(the, of, is))]
}

#[test]
fn it_opens_branch_via_repository() {
    let world = World::new();
    let branch = world.open("main");
    assert_eq!(branch.name(), "main");
    assert!(branch.revision().is_none(), "New branch should have no revision");
}

#[test]
fn it_loads_branch_via_repository() {
    let mut world = World::new();
    assert_eq!(
        world.load("main"),
        Err(LoadBranchError::NotFound { name: "main".to_string() })
    );
    let mut main = world.open("main");
    world.commit(&mut main, assert_one("user/name", "user:1", "Alice")).unwrap();
    assert_eq!(world.load("main").unwrap().name(), "main");
}

#[test]
fn it_commits_via_repository() {
    let mut world = World::new();
    let mut branch = world.open("main");
    world.commit(&mut branch, assert_one("user/name", "user:123", "Alice")).unwrap();
    assert!(branch.revision().is_some(), "Branch should have a revision after commit");
}

#[test]
fn it_commits_and_selects() {
    let mut world = World::new();
    let mut branch = world.open("main");
    let revision =
        world.commit(&mut branch, assert_one("user/name", "user:123", "Alice")).unwrap();
    assert_ne!(revision.tree, TreeReference::default());
    assert_eq!(world.select(&branch, "user/name"), vec!["Alice".to_string()]);
}

#[test]
fn it_fails_a_commit_racing_another_then_reconciles_on_refresh() {
    let mut world = World::new();
    let mut writer_a = world.open("main");
    let mut writer_b = world.open("main");
    world.commit(&mut writer_a, assert_one("user/name", "user:a", "Alice")).unwrap();

    let raced = world.commit(&mut writer_b, assert_one("user/name", "user:b", "Bob"));
    assert!(matches!(
        raced,
        Err(CommitError::Publish(PublishError::VersionMismatch { .. }))
    ));

    world.refresh(&mut writer_b);
    world.commit(&mut writer_b, assert_one("user/name", "user:b", "Bob")).unwrap();
    let fresh = world.open("main");
    assert_eq!(world.select(&fresh, "user/name").len(), 2);
}

#[test]
fn it_keeps_the_revision_for_an_empty_commit() {
    let mut world = World::new();
    let mut branch = world.open("main");
    let first = world.commit(&mut branch, assert_one("post/title", "post:1", "Hej")).unwrap();
    world.refresh(&mut branch);
    let unchanged = world.commit(&mut branch, Vec::new()).unwrap();
    assert_eq!(unchanged, first, "an empty commit mints no revision");
    assert_eq!(branch.revision(), Some(first));
}

#[test]
fn it_does_not_treat_a_stale_snapshot_as_a_noop() {
    let mut world = World::new();
    let mut seed = world.open("main");
    world.commit(&mut seed, assert_one("post/title", "post:1", "Hej")).unwrap();

    let mut retractor = world.open("main");
    let mut reasserter = world.open("main");
    world
        .commit(
            &mut retractor,
            vec![Instruction::Retract(fact("post/title", "post:1", "Hej"))],
        )
        .unwrap();

    let raced = world.commit(&mut reasserter, replace_one("post/title", "post:1", "Hej"));
    let head = world.load("main").unwrap();
    let reasserted = !world.select(&head, "post/title").is_empty();
    assert!(raced.is_err() || reasserted);
    assert!(matches!(
        raced,
        Err(CommitError::Publish(PublishError::VersionMismatch { .. }))
    ));
}

#[test]
fn it_tags_committed_data_with_the_revision_version() {
    let mut world = World::new();
    let mut branch = world.open("main");
    let version = branch.commit(()).identified(Ok(world.identity())).unwrap().0.version;
    let revision = world.commit(&mut branch, assert_one("post/title", "post:1", "Hej")).unwrap();
    assert_eq!(version, revision.version());

    let version = branch.commit(()).identified(Ok(world.identity())).unwrap().0.version;
    let revision = world.commit(&mut branch, assert_one("post/title", "post:2", "Hej")).unwrap();
    assert_eq!(version, revision.version());
    assert_eq!(revision.edition, Edition::new(1));
}

#[test]
fn it_records_the_parent_of_a_commit() {
    let mut world = World::new();
    let mut branch = world.open("main");
    let first = world.commit(&mut branch, assert_one("post/title", "post:1", "Hej")).unwrap();
    let second = world.commit(&mut branch, replace_one("post/title", "post:1", "Hi")).unwrap();
    assert_eq!(second.cause, vec![first.tree]);
    assert!(world.records[0].1.parents.is_empty());
    assert_eq!(world.records[1].1.parents, vec![first.version()]);
    assert_eq!(world.records[1].1.lineage, second.lineage());
    assert!(!world.records[1].1.signature.is_empty());
    assert_eq!(verify(&second), Ok(()));
}

#[test]
fn it_commits_and_selects_by_attribute() {
    let mut world = World::new();
    let mut branch = world.open("main");
    let facts = vec![
        fact("user/name", "user:1", "Alice"),
        fact("user/email", "user:1", "alice@example.com"),
        fact("user/name", "user:2", "Bob"),
    ];
    let asserts = facts.into_iter().map(Instruction::Assert).collect();
    world.commit(&mut branch, asserts).unwrap();
    let names = world.select(&branch, "user/name");
    assert_eq!(names, vec!["Alice".to_string(), "Bob".to_string()]);
}

#[test]
fn it_commits_and_selects_by_entity() {
    let mut world = World::new();
    let mut branch = world.open("main");
    let facts = vec![
        fact("user/name", "user:alice", "Alice"),
        fact("user/name", "user:bob", "Bob"),
        fact("user/email", "user:alice", "alice@example.com"),
    ];
    let asserts = facts.into_iter().map(Instruction::Assert).collect();
    world.commit(&mut branch, asserts).unwrap();
    let rows = world.tree(&branch.tree());
    assert_eq!(rows.iter().filter(|row| row.1 == "user:alice").count(), 2);
}

#[test]
fn it_resolves_only_latest_name_target_via_name_concept() {
    let mut world = World::new();
    let mut branch = world.open("main");
    let first = "concept:Fx8sv1aaaaaaaaaaaaaaaaaaaaaaaaaaaaaaaaaaaaaaaa";
    let second = "concept:AfmLeBBBBBBBBBBBBBBBBBBBBBBBBBBBBBBBBBBBBBBBB";
    let the = "app.meta/named-entity";
    let v1 = world.commit(&mut branch, replace_one(the, "id:page", first)).unwrap();
    assert_eq!(world.select(&branch, the), vec![first.to_string()]);
    let v2 = world.commit(&mut branch, replace_one(the, "id:page", second)).unwrap();
    assert_ne!(v1, v2);
    assert_eq!(world.select(&branch, the), vec![second.to_string()]);
}

#[test]
fn it_is_noop_when_reasserting_same_cardinality_one_value() {
    let mut world = World::new();
    let mut branch = world.open("main");
    let target = "concept:Fx8sv1aaaaaaaaaaaaaaaaaaaaaaaaaaaaaaaaaaaaaaaa";
    let the = "app.meta/named-entity";
    let r1 = world.commit(&mut branch, replace_one(the, "id:page", target)).unwrap();
    let r2 = world.commit(&mut branch, replace_one(the, "id:page", target)).unwrap();
    assert_eq!(r1.tree, r2.tree, "reasserting the same value must not change the tree");
    assert_eq!(world.select(&branch, the), vec![target.to_string()]);
}

#[test]
fn it_keeps_metadata_facts_out_of_branch_tree() {
    let mut world = World::new();
    let mut branch = world.open("main");
    world.commit(&mut branch, assert_one("user/name", "user:1", "Alice")).unwrap();
    let branch = world.load("main").unwrap();
    let head = vec![Some(Entity::new("id:revision"))];
    let env = branch.query().select(()).prepare(Ok(world.identity()), &head).unwrap().0;
    assert!(!env.changes.is_empty());
    assert!(world.select(&branch, "dialog.branch/name").is_empty());
}

#[test]
fn repository_from_profile_commits_through_profile_mount() {
    let mut world = World::new();
    let profile = Profile { signer: SignerCredential { did: world.profile.clone() } };
    world.subject = Repository::from(&profile).did();
    let mut branch = world.open("main");
    world.commit(&mut branch, assert_one("user/name", "user:1", "Alice")).unwrap();
    assert!(branch.revision().is_some());
    assert_eq!(branch.revision().unwrap().subject, world.profile);
}

#[test]
fn reopening_profile_as_repository_sees_prior_commits() {
    let mut world = World::new();
    let profile = Profile { signer: SignerCredential { did: world.profile.clone() } };
    world.subject = Repository::from(&profile).did();
    let mut writer = world.open("trunk");
    world.commit(&mut writer, assert_one("user/name", "user:1", "Alice")).unwrap();
    world.subject = Repository::from(&profile).did();
    let reader = world.load("trunk").unwrap();
    assert_eq!(world.select(&reader, "user/name").len(), 1);
}

#[test]
fn profile_repo_and_named_repo_are_distinct_spaces() {
    let mut world = World::new();
    let profile = Profile { signer: SignerCredential { did: world.profile.clone() } };
    let named = world.repository();
    let mounted = Repository::from(&profile);
    assert_ne!(mounted.did(), named.did());
    world.subject = mounted.did();
    let mut main = world.open("main");
    world.commit(&mut main, assert_one("item/tag", "item:1", "in-profile")).unwrap();
    world.subject = named.did();
    let other = world.open("main");
    assert_eq!(world.select(&other, "item/tag").len(), 0);
}

#[test]
fn it_retracts_artifact() {
    let mut world = World::new();
    let mut branch = world.open("main");
    world.commit(&mut branch, assert_one("user/name", "user:1", "Alice")).unwrap();
    assert_eq!(world.select(&branch, "user/name").len(), 1);
    world
        .commit(
            &mut branch,
            vec![Instruction::Retract(fact("user/name", "user:1", "Alice"))],
        )
        .unwrap();
    assert!(world.select(&branch, "user/name").is_empty());
}

#[test]
fn it_pulls_from_local_upstream_no_changes() {
    let mut world = World::new();
    let mut main = world.open("main");
    world.commit(&mut main, assert_one("user/name", "user:seed", "Seed")).unwrap();
    let mut feature = world.open("feature");
    world.track(&mut feature, Upstream::local("main"));
    assert!(world.pull(&mut feature, None).unwrap().is_some());
}

#[test]
fn it_pulls_upstream_changes_without_local_changes() {
    let mut world = World::new();
    let mut main = world.open("main");
    world.commit(&mut main, vec![Instruction::Assert(name("Main data"))]).unwrap();
    let main_revision = main.revision().unwrap();
    let mut feature = world.open("feature");
    world.track(&mut feature, Upstream::local("main"));
    assert!(world.pull(&mut feature, None).unwrap().is_some());
    assert_eq!(feature.revision().unwrap().tree, main_revision.tree);
    assert_eq!(feature.revision(), Some(main_revision));
}

#[test]
fn it_pulls_from_a_non_default_upstream_and_tracks_it() {
    let mut world = World::new();
    let mut main = world.open("main");
    world.commit(&mut main, vec![Instruction::Assert(name("Main data"))]).unwrap();
    let mut dev = world.open("dev");
    world.commit(&mut dev, assert_one("user/email", "user:dev", "dev@test.com")).unwrap();
    let mut feature = world.open("feature");
    world.track(&mut feature, Upstream::local("main"));
    world.pull(&mut feature, None).unwrap();

    let merged = world.pull(&mut feature, Some(Upstream::local("dev"))).unwrap();
    assert!(merged.is_some(), "pull from a second upstream merges");
    assert_eq!(world.select(&feature, "user/email").len(), 1);

    let upstreams = feature.upstreams();
    assert_eq!(upstreams.entries.len(), 2);
    assert!(matches!(
        upstreams.default_upstream(),
        Some(Upstream::Local { branch, .. }) if branch == "main"
    ));

    let again = world.pull(&mut feature, Some(Upstream::local("dev"))).unwrap();
    assert!(again.is_none(), "tracked sync base makes the re-pull a no-op");

    let selfish = world.pull(&mut feature, Some(Upstream::local("feature")));
    assert_eq!(
        selfish,
        Err(PullError::UpstreamIsItself { branch: "feature".to_string() })
    );
}

#[test]
fn it_pulls_and_merges_with_both_sides_changed() {
    let mut world = World::new();
    let mut main = world.open("main");
    world.commit(&mut main, vec![Instruction::Assert(name("Main data"))]).unwrap();
    let main_revision = main.revision().unwrap();
    let mut feature = world.open("feature");
    world.track(&mut feature, Upstream::local("main"));
    world
        .commit(&mut feature, assert_one("user/email", "user:feature", "feature@test.com"))
        .unwrap();
    assert!(world.pull(&mut feature, None).unwrap().is_some());
    assert_ne!(feature.revision().unwrap().tree, main_revision.tree);
}

#[test]
fn it_fails_a_pull_racing_a_commit_then_reconciles_on_refresh() {
    let mut world = World::new();
    let mut main = world.open("main");
    world.commit(&mut main, vec![Instruction::Assert(name("Main data"))]).unwrap();

    let mut feature_pull = world.open("feature");
    world.track(&mut feature_pull, Upstream::local("main"));
    let mut feature_commit = world.open("feature");
    world
        .commit(
            &mut feature_commit,
            assert_one("user/email", "user:feature", "feature@test.com"),
        )
        .unwrap();

    let raced = world.pull(&mut feature_pull, None);
    assert!(matches!(
        raced,
        Err(PullError::Publish(PublishError::VersionMismatch { .. }))
    ));

    world.refresh(&mut feature_pull);
    world.pull(&mut feature_pull, None).unwrap();

    let feature = world.open("feature");
    assert_eq!(
        world.select(&feature, "user/email"),
        vec!["feature@test.com".to_string()],
        "the raced commit must survive recovery"
    );
    assert_eq!(world.select(&feature, "user/name").len(), 1);
}

#[test]
fn it_pulls_in_two_phases_prepare_then_commit() {
    let mut world = World::new();
    let mut main = world.open("main");
    world.commit(&mut main, vec![Instruction::Assert(name("Main data"))]).unwrap();
    let main_revision = main.revision().unwrap();
    let mut feature = world.open("feature");
    world.track(&mut feature, Upstream::local("main"));

    let prepared = world.prepare(&feature, None).unwrap();
    assert!(feature.revision().is_none(), "prepare must not advance the head");
    assert!(world.head_state("feature").is_none());

    let pulled = world.land(&mut feature, prepared).unwrap();
    assert!(pulled.is_some(), "commit should land the merged revision");
    assert_eq!(feature.revision().unwrap().tree, main_revision.tree);
}

#[test]
fn it_prepares_a_noop_when_upstream_has_not_moved() {
    let mut world = World::new();
    let mut main = world.open("main");
    world.commit(&mut main, vec![Instruction::Assert(name("Main data"))]).unwrap();
    let mut feature = world.open("feature");
    world.track(&mut feature, Upstream::local("main"));
    world.pull(&mut feature, None).unwrap();

    let prepared = world.prepare(&feature, None).unwrap();
    let pulled = world.land(&mut feature, prepared).unwrap();
    assert!(pulled.is_none(), "a no-op pull commits to None");
}

#[test]
fn it_merges_history_across_a_pull() {
    let mut world = World::new();
    let mut main = world.open("main");
    world.commit(&mut main, assert_one("post/title", "post:1", "Hej")).unwrap();
    let first = main.revision().unwrap();
    let mut feature = world.open("feature");
    world.track(&mut feature, Upstream::local("main"));
    world.pull(&mut feature, None).unwrap();
    assert_eq!(feature.revision().map(|r| r.tree), Some(first.tree));

    world.commit(&mut feature, replace_one("post/title", "post:1", "Hi")).unwrap();
    let replacement = feature.revision().unwrap();
    world.commit(&mut main, assert_one("user/name", "user:1", "Alice")).unwrap();
    let concurrent = main.revision().unwrap();

    let merged = world.pull(&mut feature, None).unwrap().expect("pull merges");
    let record = &world.records.iter().find(|(v, _)| *v == merged.version()).unwrap().1;
    assert_eq!(record.parents, vec![replacement.version(), concurrent.version()]);
    assert!(record.skips.is_empty(), "a merge records no skip table");
    assert_eq!(merged.edition, Edition::new(2));
    assert_eq!(world.select(&feature, "post/title"), vec!["Hi".to_string()]);
}

#[test]
fn it_refuses_to_pull_a_forged_head() {
    let mut world = World::new();
    let forged = Revision {
        subject: Did::new("did:test:repository"),
        issuer: world.operator.clone(),
        authority: world.profile.clone(),
        branch: "evil".to_string(),
        tree: TreeReference([9; 32]),
        cause: Vec::new(),
        edition: Edition::genesis(),
        signature: Vec::new(),
    };
    let evil = world.key("evil");
    world.heads.insert(evil, (77, forged));

    let mut feature = world.open("feature");
    world.track(&mut feature, Upstream::local("evil"));
    let pulled = world.pull(&mut feature, None);
    assert!(matches!(
        pulled,
        Err(PullError::Artifact(ArtifactError::InvalidSignature(_)))
    ));
    assert!(feature.revision().is_none(), "nothing of the forged head may be adopted");
}

#[test]
fn it_surfaces_concurrent_replacements_after_a_merge() {
    let mut world = World::new();
    let mut main = world.open("main");
    world.commit(&mut main, assert_one("post/title", "post:1", "Base")).unwrap();
    let mut feature = world.open("feature");
    world.track(&mut feature, Upstream::local("main"));
    world.pull(&mut feature, None).unwrap();

    world.commit(&mut main, replace_one("post/title", "post:1", "MainSide")).unwrap();
    world.commit(&mut feature, replace_one("post/title", "post:1", "FeatureSide")).unwrap();
    let (theirs, ours) = (main.revision().unwrap(), feature.revision().unwrap());
    assert_eq!(theirs.edition, ours.edition);
    assert_ne!(theirs.version(), ours.version());
    world.pull(&mut feature, None).unwrap().expect("pull merges");

    let mut values = world.select(&feature, "post/title");
    values.sort();
    assert_eq!(values, vec!["FeatureSide".to_string(), "MainSide".to_string()]);
}

#[test]
fn it_propagates_a_retraction_across_a_merge() {
    let mut world = World::new();
    let mut main = world.open("main");
    world.commit(&mut main, assert_one("post/title", "post:1", "Hej")).unwrap();
    let mut feature = world.open("feature");
    world.track(&mut feature, Upstream::local("main"));
    world.pull(&mut feature, None).unwrap();
    world
        .commit(
            &mut feature,
            vec![Instruction::Retract(fact("post/title", "post:1", "Hej"))],
        )
        .unwrap();
    world.commit(&mut main, assert_one("user/name", "user:1", "Alice")).unwrap();
    world.pull(&mut feature, None).unwrap().expect("pull merges");
    assert!(world.select(&feature, "post/title").is_empty());
}

#[test]
fn it_folds_tracking_updates_racing_from_another_handle() {
    let mut world = World::new();
    let mut main = world.open("main");
    world.commit(&mut main, assert_one("user/name", "user:1", "Alice")).unwrap();
    let mut puller = world.open("feature");
    world.track(&mut puller, Upstream::local("main"));
    world
        .commit(&mut puller, assert_one("user/email", "user:1", "alice@test.com"))
        .unwrap();
    let mut other = world.open("feature");

    let prepared = world.prepare(&puller, None).unwrap();
    world.track(&mut other, Upstream::local("backup"));
    let merged = world.land(&mut puller, prepared).unwrap();
    assert!(merged.is_some(), "the racing pull still lands");

    let upstreams = world.open("feature").upstreams();
    assert_eq!(upstreams.entries.len(), 2);
    let main_head = world.load("main").unwrap().revision().unwrap();
    assert!(upstreams.entries.iter().any(|entry| matches!(
        entry,
        Upstream::Local { branch, tree } if branch == "main" && *tree == main_head.tree
    )));
    assert!(upstreams
        .entries
        .iter()
        .any(|entry| matches!(entry, Upstream::Local { branch, .. } if branch == "backup")));
}

#[test]
fn it_yields_to_a_sync_of_the_same_upstream() {
    let mut world = World::new();
    let mut main = world.open("main");
    world.commit(&mut main, assert_one("user/name", "user:1", "Alice")).unwrap();
    let mut slow = world.open("feature");
    world.track(&mut slow, Upstream::local("main"));
    let mut fast = world.open("feature");

    let prepared = world.prepare(&slow, None).unwrap();
    let newer = TreeReference([5; 32]);
    world.track(&mut fast, Upstream::local("main").with_tree(newer));
    let merged = world.land(&mut slow, prepared).unwrap();
    assert_eq!(merged, main.revision());
    let entries = world.open("feature").upstreams().entries;
    assert_eq!(entries, vec![Upstream::local("main").with_tree(newer)]);
}

#[test]
fn it_needs_an_upstream_to_pull() {
    let mut world = World::new();
    let mut branch = world.open("alone");
    assert_eq!(
        world.pull(&mut branch, None),
        Err(PullError::BranchHasNoUpstream { branch: "alone".to_string() })
    );
}

#[test]
fn it_pulls_nothing_from_a_remote_without_a_head() {
    let mut world = World::new();
    let mut branch = world.open("main");
    world.track(&mut branch, Upstream::remote("origin", "empty"));
    assert_eq!(world.pull(&mut branch, None), Ok(None));
    assert_eq!(branch.query_remote(), Some("origin".to_string()));
}

#[test]
fn it_reports_a_failed_reread() {
    let mut world = World::new();
    let mut main = world.open("main");
    world.commit(&mut main, assert_one("user/name", "user:1", "Alice")).unwrap();
    let mut feature = world.open("feature");
    world.track(&mut feature, Upstream::local("main"));
    let merged = world.prepare(&feature, None).unwrap().begin().unwrap();
    let marker = merged.head_published(&mut feature, Ok(stamp(9))).unwrap();
    let mismatch = PublishError::VersionMismatch { expected: None, actual: Some(stamp(3)) };
    let Noted::Reread(reread) = marker.published(&mut feature, Err(mismatch.clone())).unwrap()
    else {
        panic!("a lost race is read again");
    };
    let failure = ResolveError::Storage("down".to_string());
    let result = reread.resolved(&mut feature, Err(failure.clone()));
    assert!(matches!(result, Err(PullError::Resolve(error)) if error == failure));
    assert_eq!(feature.revision(), main.revision());
}

#[test]
fn it_gives_up_on_a_contended_note() {
    let mut world = World::new();
    let mut main = world.open("main");
    world.commit(&mut main, assert_one("user/name", "user:1", "Alice")).unwrap();
    let mut feature = world.open("feature");
    world.track(&mut feature, Upstream::local("main"));
    let merged = world.prepare(&feature, None).unwrap().begin().unwrap();
    let marker = merged.head_published(&mut feature, Ok(stamp(9))).unwrap();
    let mismatch = || PublishError::VersionMismatch { expected: None, actual: Some(stamp(3)) };
    let Noted::Reread(reread) = marker.published(&mut feature, Err(mismatch())).unwrap() else {
        panic!("a lost race is read again");
    };
    let Retried::Again(last) = reread.resolved(&mut feature, Ok(None)).unwrap() else {
        panic!("an untracked upstream is noted");
    };
    assert_eq!(last.upstreams.entries.len(), 1);
    assert_eq!(last.published(&mut feature, Err(mismatch())), Ok(main.revision()));
}

#[test]
fn it_converts_memory_errors() {
    let cases = vec![
        MemoryError::Storage("s".to_string()),
        MemoryError::Authorization("a".to_string()),
        MemoryError::Io("i".to_string()),
    ];
    let resolve: Vec<ResolveError> = cases.iter().cloned().map(ResolveError::from).collect();
    assert_eq!(
        resolve,
        vec![
            ResolveError::Storage("s".to_string()),
            ResolveError::Authorization("a".to_string()),
            ResolveError::Io("i".to_string()),
        ]
    );
    let publish: Vec<PublishError> = cases.into_iter().map(PublishError::from).collect();
    assert_eq!(publish[0], PublishError::Storage("s".to_string()));
    assert_eq!(publish[1], PublishError::Authorization("a".to_string()));
    assert_eq!(publish[2], PublishError::Io("i".to_string()));
    let mismatch = MemoryError::VersionMismatch { expected: None, actual: Some(stamp(1)) };
    assert_eq!(
        ResolveError::from(mismatch),
        ResolveError::VersionMismatch { expected: None, actual: Some(stamp(1)) }
    );
}

fn committing() -> commit::Replies {
    commit::Replies {
        authority: Ok(Operator {
            profile: Did::new("did:test:profile"),
            did: Did::new("did:test:operator"),
        }),
        changed: Ok(true),
        current: Ok(Some(stamp(1))),
        skips: Ok(Vec::new()),
        record_signature: Ok(vec![1]),
        root: Ok(TreeReference([7; 32])),
        imported: Ok(()),
        signature: Ok(vec![2]),
        outcome: Ok(stamp(2)),
    }
}

fn pulling(head: Revision) -> pull::Replies {
    pull::Replies {
        head: Ok(Some(head)),
        verdict: Ok(()),
        merged_tree: Ok(TreeReference([8; 32])),
        authority: Ok(Operator {
            profile: Did::new("did:test:profile"),
            did: Did::new("did:test:operator"),
        }),
        record_signature: Ok(vec![1]),
        root: Ok(TreeReference([9; 32])),
        signature: Ok(vec![2]),
        imported: Ok(()),
    }
}

fn landing() -> Outcomes {
    Outcomes { head: Ok(stamp(5)), marker: Ok(stamp(6)), reread: Ok(None), last: Ok(stamp(7)) }
}

#[test]
fn it_runs_a_commit_as_a_whole() {
    let world = World::new();
    let mut branch = world.open("main");
    let first = Commit::perform(&mut branch, (), committing()).1.unwrap();
    assert_eq!(first.tree, TreeReference([7; 32]));
    assert_eq!(first.signature, vec![2]);
    assert_eq!(first.edition, Edition::genesis());
    assert_eq!(branch.revision(), Some(first.clone()));
    assert_eq!(branch.revision.version, Some(stamp(2)));

    let replies = commit::Replies {
        root: Ok(TreeReference([8; 32])),
        outcome: Ok(stamp(3)),
        ..committing()
    };
    let second = Commit::perform(&mut branch, (), replies).1.unwrap();
    assert_eq!(second.edition, Edition::new(1));
    assert_eq!(second.cause, vec![first.tree]);

    let replies = commit::Replies {
        changed: Ok(false),
        current: Ok(Some(stamp(3))),
        ..committing()
    };
    assert_eq!(Commit::perform(&mut branch, (), replies).1, Ok(second.clone()));
    let replies = commit::Replies { changed: Ok(false), ..committing() };
    assert_eq!(
        Commit::perform(&mut branch, (), replies).1,
        Err(CommitError::Publish(PublishError::VersionMismatch {
            expected: Some(stamp(3)),
            actual: Some(stamp(1)),
        }))
    );
    assert_eq!(branch.revision(), Some(second));
}

#[test]
fn it_fails_a_commit_with_the_first_failure() {
    let world = World::new();
    let mut branch = world.open("main");
    Commit::perform(&mut branch, (), committing()).1.unwrap();
    let before = branch.clone();

    let tree = || EditError::Tree(TreeError("tree".to_string()));
    let broken = || CommitError::Tree(TreeError("tree".to_string()));
    let artifact = || ArtifactError::Storage("disk".to_string());
    let authority = || AuthorityError("nobody".to_string());
    let refused = || PublishError::Storage("full".to_string());
    let cases = vec![
        (
            commit::Replies { authority: Err(authority()), changed: Err(tree()), ..committing() },
            CommitError::Authority(authority()),
        ),
        (commit::Replies { changed: Err(tree()), ..committing() }, broken()),
        (
            commit::Replies { changed: Ok(false), current: Err(refused()), ..committing() },
            CommitError::Publish(refused()),
        ),
        (
            commit::Replies {
                skips: Err(EditError::Artifact(artifact())),
                root: Err(tree()),
                ..committing()
            },
            CommitError::Artifact(artifact()),
        ),
        (
            commit::Replies {
                record_signature: Err(SealError::Authority(authority())),
                ..committing()
            },
            CommitError::Authority(authority()),
        ),
        (commit::Replies { root: Err(tree()), ..committing() }, broken()),
        (
            commit::Replies { imported: Err(artifact()), ..committing() },
            CommitError::Artifact(artifact()),
        ),
        (
            commit::Replies { signature: Err(authority()), ..committing() },
            CommitError::Authority(authority()),
        ),
        (
            commit::Replies { outcome: Err(refused()), ..committing() },
            CommitError::Publish(refused()),
        ),
    ];
    for (replies, error) in cases {
        assert_eq!(Commit::perform(&mut branch, (), replies).1, Err(error));
        assert_eq!(branch, before);
    }

    // The first revision has no parent whose skip links could be missed.
    let mut fresh = world.open("other");
    let replies =
        commit::Replies { skips: Err(EditError::Artifact(artifact())), ..committing() };
    assert!(Commit::perform(&mut fresh, (), replies).1.is_ok());
}

#[test]
fn it_runs_a_pull_as_a_whole() {
    let world = World::new();
    let mut main = world.open("main");
    let theirs = Commit::perform(&mut main, (), committing()).1.unwrap();

    let mut feature = world.open("feature");
    let source = || Some(Upstream::local("main"));
    let adopted =
        Pull::perform(&mut feature, source(), pulling(theirs.clone()), landing()).unwrap();
    assert_eq!(adopted, Some(theirs.clone()));
    assert_eq!(feature.revision(), Some(theirs.clone()));
    assert_eq!(feature.upstreams().find(&Upstream::local("main")).unwrap().tree(), &theirs.tree);

    // Once synced there is nothing to pull, though the head is checked.
    let again = Pull::perform(&mut feature, source(), pulling(theirs.clone()), landing());
    assert_eq!(again, Ok(None));
    let silent = pull::Replies { head: Ok(None), ..pulling(theirs.clone()) };
    assert_eq!(Pull::perform(&mut feature, source(), silent, landing()), Ok(None));

    // Both sides move on.
    let replies = commit::Replies { root: Ok(TreeReference([5; 32])), ..committing() };
    let ours = Commit::perform(&mut feature, (), replies).1.unwrap();
    let replies = commit::Replies { root: Ok(TreeReference([6; 32])), ..committing() };
    let theirs = Commit::perform(&mut main, (), replies).1.unwrap();
    let merged = Pull::perform(&mut feature, source(), pulling(theirs.clone()), landing())
        .unwrap()
        .unwrap();
    assert_eq!(merged.tree, TreeReference([9; 32]));
    assert_eq!(merged.signature, vec![2]);
    assert_eq!(merged.cause, vec![theirs.tree]);
    assert_eq!(merged.edition, Edition::new(2));
    assert_eq!(ours.edition, Edition::new(1));
    assert_eq!(feature.revision(), Some(merged));
}

#[test]
fn it_fails_a_pull_with_the_first_failure() {
    let world = World::new();
    let mut main = world.open("main");
    let theirs = Commit::perform(&mut main, (), committing()).1.unwrap();
    let mut feature = world.open("feature");
    let replies = commit::Replies { root: Ok(TreeReference([5; 32])), ..committing() };
    Commit::perform(&mut feature, (), replies).1.unwrap();
    let before = feature.clone();

    let closed = || ResolveError::Io("closed".to_string());
    let artifact = || ArtifactError::Storage("disk".to_string());
    let authority = || AuthorityError("nobody".to_string());
    let tree = || TreeError("tree".to_string());
    let asked = || pulling(theirs.clone());
    let cases = vec![
        (
            pull::Replies {
                head: Err(LookupError::OpenBranch(closed())),
                verdict: Err(artifact()),
                ..asked()
            },
            PullError::LoadBranch(LoadBranchError::Resolve(closed())),
        ),
        (
            pull::Replies {
                head: Err(LookupError::OpenRemoteBranch(OpenRemoteBranchError::Resolve(closed()))),
                ..asked()
            },
            PullError::OpenRemoteBranch(OpenRemoteBranchError::Resolve(closed())),
        ),
        (
            pull::Replies { verdict: Err(artifact()), merged_tree: Err(tree()), ..asked() },
            PullError::Artifact(artifact()),
        ),
        (pull::Replies { merged_tree: Err(tree()), ..asked() }, PullError::Tree(tree())),
        (
            pull::Replies { authority: Err(authority()), ..asked() },
            PullError::Authority(authority()),
        ),
        (
            pull::Replies {
                record_signature: Err(SealError::Artifact(artifact())),
                ..asked()
            },
            PullError::Artifact(artifact()),
        ),
        (
            pull::Replies { root: Err(EditError::Tree(tree())), ..asked() },
            PullError::Tree(tree()),
        ),
        (
            pull::Replies { signature: Err(authority()), ..asked() },
            PullError::Authority(authority()),
        ),
        (
            pull::Replies { imported: Err(artifact()), ..asked() },
            PullError::Artifact(artifact()),
        ),
    ];
    for (replies, error) in cases {
        let result =
            Pull::perform(&mut feature, Some(Upstream::local("main")), replies, landing());
        assert_eq!(result, Err(error));
        assert_eq!(feature, before);
    }

    // A head that is taken over needs no signature of ours.
    let replies = pull::Replies {
        merged_tree: Ok(theirs.tree),
        authority: Err(authority()),
        signature: Err(authority()),
        ..asked()
    };
    let result = Pull::perform(&mut feature, Some(Upstream::local("main")), replies, landing());
    assert_eq!(result, Ok(Some(theirs)));
}

fn lineage(world: &World, branch: &Branch) -> Entity {
    let origin = schema::Origin::new(world.profile.clone(), branch.of().clone());
    schema::Branch::new(&origin, branch.name()).this
}

#[test]
fn it_commits_on_a_head_of_another_repository() {
    let mut world = World::new();
    let alice = world.subject.clone();
    let mut main = world.open("main");
    world.commit(&mut main, assert_one("user/name", "user:alice", "Alice")).unwrap();

    // Another repository takes the head over as it is.
    let bob = Did::new("did:test:bob");
    world.subject = bob.clone();
    let mut other = world.open("main");
    world.track(&mut other, Upstream::remote(&alice.0, "main"));
    world.pull(&mut other, None).unwrap();
    assert_eq!(other.revision(), main.revision());
    assert_eq!(other.revision().unwrap().subject, alice);

    // What it commits on top is its own.
    let version = other.commit(()).identified(Ok(world.identity())).unwrap().0.version;
    let next = world.commit(&mut other, assert_one("user/name", "user:bob", "Bob")).unwrap();
    assert_eq!(next.version(), version);
    assert_eq!(next.subject, bob);
    assert_eq!(next.lineage(), lineage(&world, &other));
    assert_eq!(next.cause, vec![main.revision().unwrap().tree]);
    let record = &world.records.iter().find(|(v, _)| *v == version).unwrap().1;
    assert_eq!(record.parents, vec![main.revision().unwrap().version()]);

    // So is what the first one merges in return.
    world.subject = alice.clone();
    world.commit(&mut main, assert_one("user/email", "user:alice", "a@test.com")).unwrap();
    let source = Upstream::remote(&bob.0, "main");
    let merged = world.pull(&mut main, Some(source)).unwrap().unwrap();
    assert_eq!(merged.subject, alice);
    assert_eq!(merged.lineage(), lineage(&world, &main));
    assert_eq!(world.select(&main, "user/name").len(), 2);
    assert_eq!(world.select(&other, "user/name").len(), 2);
}

#[test]
fn it_merges_on_a_head_of_another_repository() {
    let mut world = World::new();
    let alice = world.subject.clone();
    let mut main = world.open("main");
    world.commit(&mut main, assert_one("user/name", "user:alice", "Alice")).unwrap();
    let mut dev = world.open("dev");
    world.commit(&mut dev, assert_one("user/name", "user:dev", "Dev")).unwrap();

    world.subject = Did::new("did:test:bob");
    let mut other = world.open("main");
    world.pull(&mut other, Some(Upstream::remote(&alice.0, "main"))).unwrap();
    let merged = world.pull(&mut other, Some(Upstream::remote(&alice.0, "dev"))).unwrap();
    let merged = merged.unwrap();
    assert_eq!(merged.subject, world.subject);
    assert_eq!(merged.lineage(), lineage(&world, &other));
    assert_eq!(world.select(&other, "user/name").len(), 2);
}

#[test]
fn it_pulls_nothing_from_a_branch_without_a_head() {
    let mut world = World::new();
    let mut feature = world.open("feature");
    assert_eq!(world.pull(&mut feature, Some(Upstream::local("main"))), Ok(None));
    assert_eq!(feature.revision(), None);
}

#[test]
fn it_imports_by_a_commit() {
    let world = World::new();
    let bad = || Err(ArtifactError::Decode("bad".to_string()));
    let a = fact("user/name", "user:1", "Alice");
    let mut imported = world.open("main");
    let (asked, result) =
        Import::perform(&mut imported, vec![bad(), Ok(a.clone()), bad()], committing());
    let mut committed = world.open("main");
    let instructions = vec![Instruction::Assert(a)];
    let (expected, outcome) = Commit::perform(&mut committed, instructions, committing());
    assert_eq!(result, outcome);
    assert_eq!(imported, committed);
    let (asked, expected) = (asked.unwrap(), expected.unwrap());
    assert_eq!(asked.changes, expected.changes);
    assert_eq!(asked.version, expected.version);
    assert_eq!(asked.root, expected.root);

    // Where nothing can be read, the commit is empty.
    let (asked, result) = Import::perform(
        &mut imported,
        vec![bad()],
        commit::Replies { changed: Ok(false), current: Ok(Some(stamp(2))), ..committing() },
    );
    assert!(asked.unwrap().changes.is_empty());
    assert_eq!(result, outcome);
}
