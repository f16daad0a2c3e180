use base58::ToBase58;
use dialog_repository::artifact::Value;
use dialog_repository::changes::{Change, Changes, Statement};
use dialog_repository::identity::{Did, Entity};
use dialog_repository::schema::{
    branch, origin, revision, session, Branch, BranchRevision, DidExt, EntityExt, Origin, Session,
    SessionBranch,
};

fn did(text: &str) -> Did {
    Did::new(&format!("did:{text}"))
}

fn of(text: &str) -> Entity {
    Entity::of(&text.to_string())
}

fn hashed(bytes: &[u8]) -> String {
    let encoded = blake3::hash(bytes).as_bytes().as_ref().to_base58();
    format!("did:key:z6Mk{encoded}")
}

#[test]
fn it_derives_same_entity_for_same_value() {
    assert_eq!(of("hello"), of("hello"));
}

#[test]
fn it_derives_different_entities_for_different_values() {
    assert_ne!(of("alice"), of("bob"));
}

#[test]
fn it_produces_did_key_uris() {
    assert!(of("anything").0.starts_with("did:key:z6Mk"));
}

#[test]
fn it_preserves_uri_through_did_this() {
    let d = did("key:z6MkTestEntity");
    assert_eq!(d.this().0, d.0);
}

#[test]
fn it_derives_same_origin_for_same_profile_and_subject() {
    let a = Origin::new(did("test:p"), did("test:r"));
    let b = Origin::new(did("test:p"), did("test:r"));
    assert_eq!(a.this, b.this);
}

#[test]
fn it_derives_different_origins_for_different_profiles() {
    let a = Origin::new(did("test:p1"), did("test:r"));
    let b = Origin::new(did("test:p2"), did("test:r"));
    assert_ne!(a.this, b.this);
}

#[test]
fn it_derives_different_origins_for_different_subjects() {
    let a = Origin::new(did("test:p"), did("test:r1"));
    let b = Origin::new(did("test:p"), did("test:r2"));
    assert_ne!(a.this, b.this);
}

#[test]
fn it_reflects_subject_and_profile_on_origin_attributes() {
    let profile = did("test:profile-x");
    let subject = did("test:repo-y");
    let origin = Origin::new(profile.clone(), subject.clone());
    assert_eq!(origin.profile.0 .0, profile.0);
    assert_eq!(origin.subject.0 .0, subject.0);
}

#[test]
fn it_derives_same_branch_for_same_origin_and_name() {
    let o = Origin::new(did("test:p"), did("test:r"));
    let a = Branch::new(&o, "main");
    let b = Branch::new(&o, "main");
    assert_eq!(a.this, b.this);
}

#[test]
fn it_derives_different_branches_for_different_names() {
    let o = Origin::new(did("test:p"), did("test:r"));
    let a = Branch::new(&o, "main");
    let b = Branch::new(&o, "meta");
    assert_ne!(a.this, b.this);
}

#[test]
fn it_derives_different_branches_for_different_origins() {
    let o1 = Origin::new(did("test:p1"), did("test:r"));
    let o2 = Origin::new(did("test:p2"), did("test:r"));
    assert_ne!(Branch::new(&o1, "main").this, Branch::new(&o2, "main").this);
}

#[test]
fn it_derives_different_branches_for_different_repos() {
    let o1 = Origin::new(did("test:p"), did("test:r1"));
    let o2 = Origin::new(did("test:p"), did("test:r2"));
    assert_ne!(Branch::new(&o1, "main").this, Branch::new(&o2, "main").this);
}

#[test]
fn it_reflects_origin_on_branch_attribute() {
    let o = Origin::new(did("test:p"), did("test:r"));
    let b = Branch::new(&o, "main");
    assert_eq!(b.origin.0, o.this);
}

#[test]
fn it_attaches_branch_revision_to_branch_entity() {
    let o = Origin::new(did("test:p"), did("test:r"));
    let b = Branch::new(&o, "main");
    let rev = BranchRevision {
        this: b.this.clone(),
        tree: branch::Tree("zSomeHash".to_string()),
        edition: branch::Edition(42),
        revision: branch::Revision(Entity::new("test:revision")),
    };
    assert_eq!(rev.this, b.this);
}

#[test]
fn it_hashes_the_canonical_bytes_of_a_text() {
    assert_eq!(of("hello").0, hashed(&[0x65, b'h', b'e', b'l', b'l', b'o']));
    assert_eq!(of("").0, hashed(&[0x60]));
    let long = "x".repeat(300);
    let mut bytes = vec![0x79, 0x01, 0x2c];
    bytes.extend(long.as_bytes());
    assert_eq!(of(&long).0, hashed(&bytes));
    let middle = "y".repeat(30);
    let mut bytes = vec![0x78, 30];
    bytes.extend(middle.as_bytes());
    assert_eq!(of(&middle).0, hashed(&bytes));
}

fn text(out: &mut Vec<u8>, text: &str) {
    assert!(text.len() < 24 || text.len() > 31);
    if text.len() < 24 {
        out.push(0x60 + text.len() as u8);
    } else {
        out.extend([0x78, text.len() as u8]);
    }
    out.extend(text.as_bytes());
}

#[test]
fn it_hashes_the_canonical_bytes_of_an_origin() {
    let mut bytes = vec![0xa1];
    text(&mut bytes, "Origin");
    bytes.push(0xa2);
    text(&mut bytes, "profile");
    text(&mut bytes, "did:test:p");
    text(&mut bytes, "subject");
    text(&mut bytes, "did:test:r");
    let origin = Origin::new(did("test:p"), did("test:r"));
    assert_eq!(origin.this.0, hashed(&bytes));
}

#[test]
fn it_hashes_the_canonical_bytes_of_a_branch() {
    let origin = Origin::new(did("test:p"), did("test:r"));
    let mut bytes = vec![0xa1];
    text(&mut bytes, "Branch");
    bytes.push(0xa2);
    text(&mut bytes, "name");
    text(&mut bytes, "main");
    text(&mut bytes, "origin");
    text(&mut bytes, &origin.this.0);
    assert_eq!(Branch::new(&origin, "main").this.0, hashed(&bytes));
}

#[test]
fn it_tells_an_origin_from_a_branch_with_the_same_texts() {
    let origin = Origin::new(did("test:p"), did("test:r"));
    let branch = Branch::new(&Entity::new("did:test:r"), "did:test:p");
    assert_ne!(origin.this, branch.this);
}

#[test]
fn it_names_the_attributes_of_every_concept() {
    assert_eq!(branch::Name::the().0, "dialog.branch/name");
    assert_eq!(branch::Origin::the().0, "dialog.branch/origin");
    assert_eq!(branch::Tree::the().0, "dialog.branch/tree");
    assert_eq!(branch::Edition::the().0, "dialog.branch/edition");
    assert_eq!(branch::Revision::the().0, "dialog.branch/revision");
    assert_eq!(origin::Subject::the().0, "dialog.origin/subject");
    assert_eq!(origin::Profile::the().0, "dialog.origin/profile");
    assert_eq!(revision::Lineage::the().0, "dialog.revision/lineage");
    assert_eq!(revision::Issuer::the().0, "dialog.revision/issuer");
    assert_eq!(revision::Authority::the().0, "dialog.revision/authority");
    assert_eq!(revision::Edition::the().0, "dialog.revision/edition");
    assert_eq!(revision::Parent::the().0, "dialog.revision/parent");
    assert_eq!(session::Profile::the().0, "dialog.session/profile");
    assert_eq!(session::Operator::the().0, "dialog.session/operator");
    assert_eq!(session::Branch::the().0, "dialog.session/branch");
}

#[test]
fn it_states_single_values_as_replacements_and_many_as_assertions() {
    let mut changes = Changes::new();
    Session {
        this: Session::entity(),
        profile: session::Profile(Entity::new("did:test:p")),
        operator: session::Operator(Entity::new("did:test:o")),
    }
    .assert_into(&mut changes);
    SessionBranch {
        this: Session::entity(),
        branch: session::Branch(Entity::new("id:branch")),
    }
    .assert_into(&mut changes);
    let stated: Vec<(String, String, Change)> = changes
        .log
        .into_iter()
        .map(|p| (p.of.0, p.the.0, p.change))
        .collect();
    let session = "db:session".to_string();
    assert_eq!(
        stated,
        vec![
            (
                session.clone(),
                "dialog.session/profile".to_string(),
                Change::Replace(Value::Entity(Entity::new("did:test:p")))
            ),
            (
                session.clone(),
                "dialog.session/operator".to_string(),
                Change::Replace(Value::Entity(Entity::new("did:test:o")))
            ),
            (
                session,
                "dialog.session/branch".to_string(),
                Change::Assert(Value::Entity(Entity::new("id:branch")))
            ),
        ]
    );
}
