use dialog_repository::artifact::Value;
use dialog_repository::identity::{Did, Entity};
use dialog_repository::revision::{Edition, Index, Revision, TreeReference};

fn did(text: &str) -> Did {
    Did::new(&format!("did:{text}"))
}

fn tree(seed: u8) -> TreeReference {
    TreeReference([seed; 32])
}

fn genesis() -> Revision {
    Revision::new(
        TreeReference::default(),
        did("test:repository"),
        "main",
        did("test:alice"),
        did("test:profile"),
    )
}

#[test]
fn it_derives_editions_from_the_revision_dag() {
    let base = genesis();
    assert_eq!(base.edition, Edition::genesis());

    let second = base.advance(tree(1), "main", did("test:alice"), did("test:profile"));
    assert_eq!(second.edition, Edition::new(1));
    assert!(second.cause.contains(&base.tree));

    let third = second.advance(tree(2), "main", did("test:bob"), did("test:profile"));
    assert_eq!(third.edition, Edition::new(2));

    let concurrent = second.advance(tree(3), "main", did("test:carol"), did("test:profile"));
    let merged = third.merge(
        &concurrent,
        tree(4),
        "main",
        did("test:alice"),
        did("test:profile"),
    );
    assert_eq!(merged.edition, Edition::new(3));
    assert_eq!(merged.cause, vec![tree(3)]);
}

#[test]
fn it_identifies_concurrent_revisions_by_version() {
    let base = genesis();

    let left = base.advance(tree(1), "main", did("test:alice"), did("test:profile"));
    let right = base.advance(tree(2), "main", did("test:bob"), did("test:profile"));
    assert_eq!(left.edition, right.edition);
    assert_ne!(left.origin(), right.origin());
    assert_ne!(left.version(), right.version());

    let elsewhere = Revision::new(
        TreeReference::default(),
        did("test:other-repository"),
        "main",
        did("test:alice"),
        did("test:profile"),
    );
    assert_ne!(left.origin(), elsewhere.origin());

    let branched = base.advance(tree(3), "feature", did("test:alice"), did("test:profile"));
    assert_ne!(left.origin(), branched.origin());
    assert_ne!(left.version(), branched.version());
}

#[test]
fn it_merges_past_the_deeper_side() {
    let base = genesis();
    let deep = base
        .advance(tree(1), "main", did("test:a"), did("test:p"))
        .advance(tree(2), "main", did("test:a"), did("test:p"));
    let merged = base.merge(&deep, tree(3), "main", did("test:a"), did("test:p"));
    assert_eq!(merged.edition, Edition::new(3));
    let merged = deep.merge(&base, tree(3), "main", did("test:a"), did("test:p"));
    assert_eq!(merged.edition, Edition::new(3));
    assert_eq!(merged.subject, did("test:repository"));
}

#[test]
fn it_records_a_revision_in_all_three_orders() {
    let revision = genesis();
    let record = revision.record(vec![], vec![]);
    assert_eq!(record.lineage, revision.lineage());
    assert_eq!(record.issuer, did("test:alice"));
    assert_eq!(record.authority, did("test:profile"));
    assert!(record.signature.is_empty());

    let entity = Entity::new("id:revision");
    let entries = revision.record_entries(&entity, &vec![1, 2, 3]);
    let orders: Vec<Index> = entries.iter().map(|e| e.index).collect();
    assert_eq!(orders, vec![Index::Entity, Index::Attribute, Index::Value]);
    for entry in entries {
        assert_eq!(entry.artifact.the.0, "dialog.db/revision");
        assert_eq!(entry.artifact.of, entity);
        assert_eq!(entry.artifact.is, Value::Record(vec![1, 2, 3]));
        assert_eq!(entry.version, revision.version());
    }
}
