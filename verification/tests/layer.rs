use dialog_repository::artifact::{Artifact, Claim, SortKey, Value};
use dialog_repository::changes::Changes;
use dialog_repository::error::ArtifactError;
use dialog_repository::identity::{Attribute, Entity};
use dialog_repository::layer::{group_key, merge_grouped, next_head, Item, Run};
use dialog_repository::tombstones::{filter_tombstones, tombstones_from, Fact, Tombstones};

fn artifact(of: &str, the: &str, is: &str) -> Artifact {
    Artifact {
        the: Attribute::new(the),
        of: Entity::new(of),
        is: Value::String(is.to_string()),
        cause: None,
    }
}

fn claim(artifact: &Artifact) -> Claim {
    let is = match &artifact.is {
        Value::String(text) => text.as_bytes().to_vec(),
        _ => Vec::new(),
    };
    Claim {
        key: SortKey(
            artifact.the.0.as_bytes().to_vec(),
            artifact.of.0.as_bytes().to_vec(),
            is,
        ),
        artifact: artifact.clone(),
    }
}

fn stream_of(items: Vec<Artifact>) -> Vec<Item> {
    items.iter().map(|a| Ok(claim(a))).collect()
}

fn collect(items: Vec<Item>) -> Result<Vec<Artifact>, ArtifactError> {
    items.into_iter().map(|i| i.map(|c| c.artifact)).collect()
}

#[test]
fn it_yields_empty_stream_when_no_inputs() {
    let items = collect(merge_grouped(vec![])).unwrap();
    assert!(items.is_empty());
}

#[test]
fn it_passes_single_stream_through_without_dedup() {
    let a = artifact("id:a", "test/name", "Alice");
    let items = collect(merge_grouped(vec![stream_of(vec![a.clone(), a.clone()])])).unwrap();
    assert_eq!(items.len(), 2);
}

#[test]
fn it_dedupes_identical_artifacts_across_streams() {
    let a = artifact("id:a", "test/name", "Alice");
    let merged = merge_grouped(vec![stream_of(vec![a.clone()]), stream_of(vec![a.clone()])]);
    let items = collect(merged).unwrap();
    assert_eq!(items.len(), 1);
}

#[test]
fn it_extracts_tombstones_from_retracts_only() {
    let mut changes = Changes::new();
    changes.associate(
        Attribute::new("test/name"),
        Entity::new("id:alice"),
        Value::String("Alice".to_string()),
    );
    changes.dissociate(
        Attribute::new("test/name"),
        Entity::new("id:bob"),
        Value::String("Bob".to_string()),
    );

    let tombstones = tombstones_from(&changes);
    assert_eq!(tombstones.retracts.len(), 1, "only the retract contributes");
    assert!(tombstones.replacements.is_empty(), "an assert is not a replace");
    let retracted = artifact("id:bob", "test/name", "Bob");
    assert!(tombstones.retracts.contains(&Fact::from_artifact(&retracted)));
    assert!(tombstones.shadows(&retracted));
}

#[test]
fn it_lifts_a_group_shadow_from_a_replace() {
    let mut changes = Changes::new();
    changes.associate_unique(
        Attribute::new("test/name"),
        Entity::new("id:alice"),
        Value::String("Alicia".to_string()),
    );

    let tombstones = tombstones_from(&changes);
    assert!(tombstones.retracts.is_empty(), "a replace is not a retract");
    let replacement = artifact("id:alice", "test/name", "Alicia");
    let superseded = artifact("id:alice", "test/name", "Alice");
    assert!(!tombstones.shadows(&replacement));
    assert!(tombstones.shadows(&superseded));
}

#[test]
fn it_filters_matching_artifacts_via_tombstones() {
    let keep = artifact("id:a", "test/name", "Keep");
    let drop = artifact("id:b", "test/name", "Drop");
    let mut tombstones = Tombstones::default();
    tombstones.retract(Fact::from_artifact(&drop));

    let filtered = filter_tombstones(stream_of(vec![keep.clone(), drop]), &tombstones);
    assert_eq!(collect(filtered).unwrap(), vec![keep]);
}

#[test]
fn it_shadows_superseded_priors_but_keeps_the_replacement() {
    let mut changes = Changes::new();
    changes.associate_unique(
        Attribute::new("test/name"),
        Entity::new("id:a"),
        Value::String("Alicia".to_string()),
    );
    let tombstones = tombstones_from(&changes);

    let superseded = artifact("id:a", "test/name", "Alice");
    let same_value = artifact("id:a", "test/name", "Alicia");
    let other_entity = artifact("id:b", "test/name", "Alice");
    let filtered = filter_tombstones(
        stream_of(vec![superseded, same_value.clone(), other_entity.clone()]),
        &tombstones,
    );
    assert_eq!(collect(filtered).unwrap(), vec![same_value, other_entity]);
}

#[test]
fn it_passes_stream_through_when_tombstones_are_empty() {
    let a = artifact("id:a", "test/name", "Alice");
    let b = artifact("id:b", "test/name", "Bob");
    let filtered =
        filter_tombstones(stream_of(vec![a.clone(), b.clone()]), &Tombstones::default());
    assert_eq!(collect(filtered).unwrap(), vec![a, b]);
}

#[test]
fn it_orders_values_of_one_group_as_one_tree_would() {
    let alice = artifact("id:a", "test/name", "Alice");
    let bob = artifact("id:a", "test/name", "Bob");
    let merged = merge_grouped(vec![
        stream_of(vec![bob.clone()]),
        stream_of(vec![alice.clone()]),
    ]);
    assert_eq!(collect(merged).unwrap(), vec![alice, bob]);
}

#[test]
fn it_merges_three_streams_as_one_tree() {
    let a = artifact("id:a", "test/name", "1");
    let b = artifact("id:b", "test/name", "1");
    let c = artifact("id:c", "test/name", "1");
    let d = artifact("id:a", "zest/name", "1");
    let merged = merge_grouped(vec![
        stream_of(vec![a.clone(), c.clone()]),
        stream_of(vec![b.clone(), c.clone(), d.clone()]),
        stream_of(vec![]),
    ]);
    assert_eq!(collect(merged).unwrap(), vec![a, b, c, d]);
}

#[test]
fn it_keeps_facts_that_differ_in_their_cause() {
    let plain = artifact("id:a", "test/name", "1");
    let mut caused = plain.clone();
    caused.cause = Some(dialog_repository::artifact::Cause(vec![7; 32]));
    let merged = merge_grouped(vec![
        stream_of(vec![plain.clone()]),
        stream_of(vec![caused.clone()]),
        stream_of(vec![plain.clone()]),
    ]);
    assert_eq!(collect(merged).unwrap(), vec![plain, caused]);
}

#[test]
fn it_ends_a_merge_with_the_first_error() {
    let a = artifact("id:a", "test/name", "1");
    let b = artifact("id:b", "test/name", "1");
    let error = ArtifactError::Storage("gone".to_string());
    let merged = merge_grouped(vec![
        vec![Ok(claim(&b)), Ok(claim(&b))],
        vec![Ok(claim(&a)), Err(error.clone()), Ok(claim(&b))],
    ]);
    assert_eq!(merged, vec![Ok(claim(&a)), Err(error)]);
}

#[test]
fn it_keeps_errors_of_a_filtered_stream() {
    let a = artifact("id:a", "test/name", "1");
    let error = ArtifactError::Decode("bad".to_string());
    let mut tombstones = Tombstones::default();
    tombstones.retract(Fact::from_artifact(&a));
    let filtered = filter_tombstones(
        vec![Ok(claim(&a)), Err(error.clone()), Ok(claim(&a))],
        &tombstones,
    );
    assert_eq!(filtered, vec![Err(error)]);
}

#[test]
fn it_picks_the_first_error_before_the_least_key() {
    let a = artifact("id:a", "test/name", "1");
    let b = artifact("id:b", "test/name", "1");
    let error = || Err(ArtifactError::Storage("gone".to_string()));
    assert_eq!(next_head(&vec![]), None);
    assert_eq!(next_head(&vec![None, None]), None);
    assert_eq!(next_head(&vec![Some(Ok(claim(&b))), None, Some(Ok(claim(&a)))]), Some(2));
    assert_eq!(next_head(&vec![Some(Ok(claim(&a))), Some(Ok(claim(&a)))]), Some(0));
    assert_eq!(next_head(&vec![Some(Ok(claim(&a))), Some(error()), Some(error())]), Some(1));
}

#[test]
fn it_starts_a_new_run_with_a_new_group() {
    let a = claim(&artifact("id:a", "test/name", "1"));
    let b = claim(&artifact("id:b", "test/name", "1"));
    let mut run = Run::new();
    assert!(run.take(&a));
    assert!(!run.take(&a));
    assert!(run.take(&b));
    assert!(run.take(&a));
    assert_eq!(group_key(&a), (b"test/name".to_vec(), b"id:a".to_vec()));
}

#[test]
fn it_hides_a_retracted_replacement() {
    let mut changes = Changes::new();
    let name = || Attribute::new("test/name");
    let value = |text: &str| Value::String(text.to_string());
    changes.associate_unique(name(), Entity::new("id:a"), value("B"));
    changes.dissociate(name(), Entity::new("id:a"), value("B"));
    let tombstones = tombstones_from(&changes);
    assert!(tombstones.shadows(&artifact("id:a", "test/name", "B")));
    assert!(tombstones.shadows(&artifact("id:a", "test/name", "A")));
    assert!(!tombstones.shadows(&artifact("id:a", "test/age", "A")));
    assert!(!tombstones.is_empty());
}

#[test]
fn it_orders_keys_by_attribute_then_entity_then_value() {
    let key = |a: u8, b: u8, c: u8| SortKey(vec![a], vec![b], vec![c]);
    assert!(key(1, 9, 9).less(&key(2, 0, 0)));
    assert!(key(1, 1, 9).less(&key(1, 2, 0)));
    assert!(key(1, 1, 1).less(&key(1, 1, 2)));
    assert!(!key(1, 1, 1).less(&key(1, 1, 1)));
    assert!(SortKey(vec![1], vec![], vec![]).less(&SortKey(vec![1, 0], vec![], vec![])));
    assert!(!key(2, 0, 0).less(&key(1, 9, 9)));
}
