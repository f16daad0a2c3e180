use dialog_repository::artifact::{Artifact, Value};
use dialog_repository::branch::select::Select;
use dialog_repository::branch::transfer::{export_step, import_step, Exported, Exporting, State};
use dialog_repository::branch::{Branch, BranchReference};
use dialog_repository::changes::Instruction;
use dialog_repository::error::{ArtifactError, ResolveError, SignerRequiredError, TreeError};
use dialog_repository::identity::{Attribute, Did, Entity};
use dialog_repository::memory::Version;
use dialog_repository::repository::{
    Credential, Ed25519Signer, LoadRepository, OpenRepository, Principal, Profile, Repository,
    RepositoryExt, SignerCredential, VerifierCredential,
};
use dialog_repository::revision::{Revision, TreeReference};
use dialog_repository::rules::source_selector;
use dialog_repository::upstream::{Upstream, Upstreams};

fn did(text: &str) -> Did {
    Did::new(&format!("did:{text}"))
}

fn reference(name: &str) -> BranchReference {
    BranchReference::new(did("test:repository"), name)
}

fn with_tree(tree: TreeReference) -> Branch {
    let mut branch = Branch::new(reference("main"));
    let head = Revision::new(tree, did("test:repository"), "main", did("test:o"), did("test:p"));
    branch.revision.published(head, Version(vec![1]));
    branch
}

fn fact(is: &str) -> Artifact {
    Artifact {
        the: Attribute::new("user/name"),
        of: Entity::new("user:1"),
        is: Value::String(is.to_string()),
        cause: None,
    }
}

#[test]
fn it_names_a_branch_by_its_space() {
    assert_eq!(reference("main").name(), "main");
    assert_eq!(reference("a/b").name(), "a/b");
    assert_eq!(reference("").name(), "");
    assert_eq!(reference("main").space, "branch/main");
    let elsewhere = BranchReference { subject: did("test:r"), space: "remote/x".to_string() };
    assert_eq!(elsewhere.name(), "");
    assert_eq!(reference("main").revision().cell, "revision");
    assert_eq!(reference("main").upstream().cell, "upstream");
    assert_eq!(reference("main").cell("other").space, "branch/main");
}

#[test]
fn it_tracks_upstreams_with_the_first_as_default() {
    let mut upstreams = Upstreams::default();
    assert!(upstreams.default_upstream().is_none());
    upstreams.upsert(Upstream::local("main"));
    upstreams.upsert(Upstream::remote("origin", "main"));
    upstreams.upsert(Upstream::local("main").with_tree(TreeReference([3; 32])));
    assert_eq!(upstreams.entries.len(), 2);
    assert_eq!(
        upstreams.default_upstream(),
        Some(&Upstream::local("main").with_tree(TreeReference([3; 32])))
    );
    assert_eq!(upstreams.find(&Upstream::local("dev")), None);
    assert_eq!(
        upstreams.find(&Upstream::remote("origin", "main")),
        Some(&Upstream::remote("origin", "main"))
    );
    assert_eq!(upstreams.remote_name(), Some("origin"));
    assert_eq!(upstreams.find(&Upstream::remote("other", "main")), None);
}

#[test]
fn it_reads_a_remote_for_queries_from_the_default_only() {
    let mut branch = Branch::new(reference("main"));
    let mut upstreams = Upstreams::default();
    upstreams.upsert(Upstream::local("dev"));
    upstreams.upsert(Upstream::remote("origin", "main"));
    branch.upstream.published(upstreams, Version(vec![1]));
    assert_eq!(branch.query_remote(), None);
    assert_eq!(branch.commit(()).remote, Some("origin".to_string()));
    assert_eq!(branch.export().remote(), Some("origin".to_string()));
    let select = Select::new(&branch, source_selector(&Entity::new("rule:1")));
    assert_eq!(select.remote(), Some("origin".to_string()));
    assert_eq!(branch.upstream(), Some(Upstream::local("dev")));
}

#[test]
fn it_selects_empty_branch() {
    let branch = Branch::new(reference("main"));
    let select = Select::new(&branch, source_selector(&Entity::new("rule:1")));
    assert_eq!(select.tree_hash(), TreeReference::default());
    assert_eq!(select.probe(), None);
    assert_eq!(select.probed(Ok(false)), Ok(()));
    assert_eq!(branch.history(), TreeReference::default());
    assert_eq!(select.catalog().subject, did("test:repository"));
    assert_eq!(branch.archive().subject, did("test:repository"));
}

#[test]
fn it_reports_a_root_that_is_missing() {
    let branch = with_tree(TreeReference([0xff; 32]));
    let select = Select::new(&branch, source_selector(&Entity::new("rule:1")));
    assert_eq!(select.probe(), Some(TreeReference([0xff; 32])));
    assert_eq!(select.probed(Ok(true)), Ok(()));
    assert_eq!(
        select.probed(Ok(false)),
        Err(TreeError(
            "Blob not found in storage: JEKNVnkbo3jma5nREBBJCDoXFVeKkD56V3xKrvRmWxFG".to_string()
        ))
    );
    let down = || Err(TreeError("down".to_string()));
    assert_eq!(select.probed(down()), Err(TreeError("down".to_string())));
    let mut root = [0; 32];
    root[31] = 1;
    let branch = with_tree(TreeReference(root));
    let select = Select::new(&branch, source_selector(&Entity::new("rule:1")));
    assert_eq!(
        select.probed(Ok(false)),
        Err(TreeError(
            "Blob not found in storage: 11111111111111111111111111111112".to_string()
        ))
    );
}

#[test]
fn it_refreshes_the_head_and_then_the_upstreams() {
    let mut branch = Branch::new(reference("main"));
    let head = with_tree(TreeReference([1; 32])).revision().unwrap();
    let failure = ResolveError::Io("closed".to_string());
    let result = branch.refresh(Err(failure.clone()), Ok(None));
    assert_eq!(result, Err(failure.clone()));
    assert_eq!(branch.revision(), None);
    let result = branch.refresh(Ok(Some((head.clone(), Version(vec![2])))), Err(failure.clone()));
    assert_eq!(result, Err(failure));
    assert_eq!(branch.revision(), Some(head));
    assert_eq!(branch.refresh(Ok(None), Ok(None)), Ok(()));
    assert_eq!(branch.revision(), None);
}

#[test]
fn it_exports_facts_until_something_fails() {
    let branch = Branch::new(reference("main"));
    let error = |text: &str| ArtifactError::Storage(text.to_string());
    let entries = || {
        vec![
            Ok(State::Added(Ok(fact("A")))),
            Ok(State::Removed),
            Ok(State::Added(Ok(fact("B")))),
        ]
    };
    let all = branch.export().perform(entries(), vec![Ok(()), Ok(())], Ok(()));
    assert_eq!(
        all,
        Exported { written: vec![fact("A"), fact("B")], closed: true, outcome: Ok(()) }
    );
    let unclosed = branch.export().perform(entries(), vec![Ok(()), Ok(())], Err(error("close")));
    assert_eq!(unclosed.outcome, Err(error("close")));
    assert!(unclosed.closed);
    let unwritten = branch.export().perform(entries(), vec![Err(error("full")), Ok(())], Ok(()));
    assert_eq!(
        unwritten,
        Exported { written: vec![fact("A")], closed: false, outcome: Err(error("full")) }
    );
    let mut broken = entries();
    broken.insert(1, Err(error("scan")));
    let unread = branch.export().perform(broken, vec![Ok(()), Ok(())], Ok(()));
    assert_eq!(
        unread,
        Exported { written: vec![fact("A")], closed: false, outcome: Err(error("scan")) }
    );
    assert_eq!(export_step(Some(Ok(State::Added(Err(error("d")))))), Err(error("d")));
    assert_eq!(export_step(None), Ok(Exporting::Close));
}

#[test]
fn it_imports_what_can_be_read() {
    let branch = Branch::new(reference("main"));
    let bad = || Err(ArtifactError::Decode("bad".to_string()));
    let import = branch.import(vec![Ok(fact("A")), bad(), Ok(fact("B"))]);
    let instructions = import.commit().changes;
    assert_eq!(
        instructions,
        vec![Instruction::Assert(fact("A")), Instruction::Assert(fact("B"))]
    );
    assert_eq!(import_step(bad()), None);
}

#[test]
fn it_hands_out_access_with_a_signer_only() {
    let signer = SignerCredential { did: did("test:s") };
    let verifier = VerifierCredential { did: did("test:v") };
    let signing = Repository::from(Credential::Signer(signer.clone()));
    let reading = Repository::from(Credential::Verifier(verifier.clone()));
    assert_eq!(signing.try_access().unwrap().signer, &signer);
    assert!(reading.try_access().is_none());
    assert_eq!(reading.did(), did("test:v"));
    assert_eq!(signing.subject(), did("test:s"));
    let owned: Result<Repository<SignerCredential>, SignerRequiredError> =
        Repository::try_from(Credential::Signer(signer.clone()));
    assert_eq!(owned.unwrap().access().signer, &signer);
    let refused: Result<Repository<SignerCredential>, SignerRequiredError> =
        Repository::try_from(Credential::Verifier(verifier));
    assert_eq!(refused, Err(SignerRequiredError));
    let owned = Repository::from(signer.clone());
    assert_eq!(Principal::did(&owned), signer.did);
    assert_eq!(owned.credential(), &signer);
    assert_eq!(owned.remote("origin").name, "origin");
    assert_eq!(owned.branch("main").of(), &did("test:s"));
}

fn profile() -> Profile {
    Profile { signer: SignerCredential { did: did("test:p") } }
}

#[test]
fn it_opens_repository_by_name() {
    let home = profile().repository("home");
    assert_eq!(home.profile_did, did("test:p"));
    assert_eq!(home.clone().open(), OpenRepository(home.clone()));
    assert_eq!(home.clone().load(), LoadRepository(home.clone()));
    assert_eq!(home.clone().create().0.name, "home");
}

#[test]
fn repository_from_profile_shares_did() {
    let profile = profile();
    let repository = Repository::from(&profile);
    assert_eq!(repository.did(), profile.did());
    assert_eq!(Repository::from(profile.clone()), repository);
    let signer = Ed25519Signer { did: did("test:k") };
    assert_eq!(Repository::from(signer).did(), did("test:k"));
}
