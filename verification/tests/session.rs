use dialog_repository::artifact::{Artifact, Claim, SortKey, Value};
use dialog_repository::branch::{Branch, BranchReference};
use dialog_repository::changes::{Change, Changes};
use dialog_repository::error::{ArtifactError, AuthorityError};
use dialog_repository::identity::{Attribute, Did, Entity};
use dialog_repository::layer::Item;
use dialog_repository::memory::Version;
use dialog_repository::revision::{Revision, TreeReference};
use dialog_repository::schema;
use dialog_repository::schema::DidExt;
use dialog_repository::session::{Operator, QueryEnv, QueryLayer, TransactionQuery};

fn did(text: &str) -> Did {
    Did::new(&format!("did:{text}"))
}

fn operator() -> Operator {
    Operator { profile: did("test:profile"), did: did("test:operator") }
}

fn branch(name: &str) -> Branch {
    Branch::new(BranchReference::new(did("test:repository"), name))
}

fn committed(name: &str, tree: u8) -> Branch {
    let mut branch = branch(name);
    let first = Revision::new(
        TreeReference::default(),
        did("test:repository"),
        name,
        did("test:operator"),
        did("test:profile"),
    );
    let head = first.advance(
        TreeReference([tree; 32]),
        name,
        did("test:operator"),
        did("test:profile"),
    );
    branch.revision.published(head, Version(vec![1]));
    branch
}

fn fact(the: &str, of: &str, is: &str) -> Artifact {
    Artifact {
        the: Attribute::new(the),
        of: Entity::new(of),
        is: Value::String(is.to_string()),
        cause: None,
    }
}

fn claim(artifact: Artifact) -> Claim {
    let is = format!("{:?}", artifact.is).into_bytes();
    Claim {
        key: SortKey(
            artifact.the.0.as_bytes().to_vec(),
            artifact.of.0.as_bytes().to_vec(),
            is,
        ),
        artifact,
    }
}

fn stream(facts: Vec<Artifact>) -> Vec<Item> {
    let mut claims: Vec<Claim> = facts.into_iter().map(claim).collect();
    claims.sort_by_key(|c| (c.key.0.clone(), c.key.1.clone(), c.key.2.clone()));
    claims.into_iter().map(Ok).collect()
}

fn overlay(changes: &Changes) -> Vec<Item> {
    let mut facts = Vec::new();
    for pending in &changes.log {
        let is = match &pending.change {
            Change::Assert(value) | Change::Replace(value) => value.clone(),
            Change::Retract(_) => continue,
        };
        facts.push(Artifact {
            the: pending.the.clone(),
            of: pending.of.clone(),
            is,
            cause: None,
        });
    }
    stream(facts)
}

fn read(env: &QueryEnv, stored: Vec<Vec<Artifact>>, the: &str) -> Vec<Value> {
    let sources = stored.into_iter().map(|facts| Ok(stream(facts))).collect();
    let items = env.execute(sources, Ok(overlay(&env.changes))).unwrap();
    items
        .into_iter()
        .map(|item| item.unwrap().artifact)
        .filter(|artifact| artifact.the.0 == the)
        .map(|artifact| artifact.is)
        .collect()
}

fn text(value: &str) -> Value {
    Value::String(value.to_string())
}

fn name_of(changes: &mut Changes, of: &str, is: &str) {
    changes.associate_unique(Attribute::new("test/name"), Entity::new(of), text(is));
}

fn transaction<'a>(branch: &'a Branch, changes: &Changes) -> QueryEnv<'a> {
    let query = TransactionQuery::new(branch, changes).select(());
    query.prepare(Ok(operator()), &vec![None]).unwrap().0
}

#[test]
fn it_surfaces_pending_asserts_through_transaction_query() {
    let main = branch("main");
    let mut changes = Changes::new();
    name_of(&mut changes, "id:alice", "Alice");
    let env = transaction(&main, &changes);
    assert_eq!(read(&env, vec![vec![]], "test/name"), vec![text("Alice")]);
}

#[test]
fn it_tombstones_pending_retracts_through_transaction_query() {
    let main = branch("main");
    let stored =
        vec![fact("test/name", "id:alice", "Alice"), fact("test/name", "id:bob", "Bob")];
    let mut changes = Changes::new();
    changes.dissociate(Attribute::new("test/name"), Entity::new("id:alice"), text("Alice"));
    let env = transaction(&main, &changes);
    assert_eq!(read(&env, vec![stored], "test/name"), vec![text("Bob")]);
}

#[test]
fn it_keeps_value_when_retract_is_followed_by_assert() {
    let main = branch("main");
    let stored = vec![fact("test/name", "id:alice", "Alice")];
    let mut changes = Changes::new();
    changes.dissociate(Attribute::new("test/name"), Entity::new("id:alice"), text("Alice"));
    changes.associate(Attribute::new("test/name"), Entity::new("id:alice"), text("Alice"));
    let env = transaction(&main, &changes);
    assert_eq!(read(&env, vec![stored], "test/name"), vec![text("Alice")]);
}

#[test]
fn it_reads_own_replace_mid_transaction() {
    let main = branch("main");
    let stored = vec![fact("test/name", "id:alice", "Alice")];
    let mut changes = Changes::new();
    name_of(&mut changes, "id:alice", "Bob");
    let env = transaction(&main, &changes);
    assert_eq!(read(&env, vec![stored], "test/name"), vec![text("Bob")]);
}

#[test]
fn it_auto_includes_session_facts_in_transaction_query() {
    let main = branch("main");
    let from_branch = main.query().select(()).prepare(Ok(operator()), &vec![None]).unwrap().0;
    let from_transaction = transaction(&main, &Changes::new());
    assert_eq!(from_transaction.changes, from_branch.changes);
    let profile = read(&from_transaction, vec![vec![]], "dialog.session/profile");
    assert_eq!(profile, vec![Value::Entity(Entity::new("did:test:profile"))]);
    let acting = read(&from_transaction, vec![vec![]], "dialog.session/operator");
    assert_eq!(acting, vec![Value::Entity(Entity::new("did:test:operator"))]);
}

#[test]
fn it_does_not_leak_session_metadata_into_commits() {
    let main = branch("main");
    let mut changes = Changes::new();
    name_of(&mut changes, "id:alice", "Alice");
    let before = changes.clone();
    let env = transaction(&main, &changes);
    assert_eq!(read(&env, vec![vec![]], "dialog.session/profile").len(), 1);
    assert_eq!(changes, before);
}

#[test]
fn it_auto_includes_session_branch_in_transaction_query() {
    let main = branch("main");
    let origin = schema::Origin::new(did("test:profile"), did("test:repository"));
    let expected = schema::Branch::new(&origin, "main");
    let env = transaction(&main, &Changes::new());
    assert_eq!(
        read(&env, vec![vec![]], "dialog.session/branch"),
        vec![Value::Entity(expected.this)]
    );
}

#[test]
fn it_exposes_overlaid_concept_facts_via_with() {
    let main = branch("main");
    let mut changes = Changes::new();
    changes.associate_unique(
        Attribute::new("app.meta/name"),
        Entity::new("id:branch"),
        text("main"),
    );
    let env = main.with(changes).select(()).prepare(Ok(operator()), &vec![None]).unwrap().0;
    assert_eq!(read(&env, vec![vec![]], "app.meta/name"), vec![text("main")]);
}

fn employee(of: &str, name: &str, role: &str) -> Vec<Artifact> {
    vec![fact("employee/name", of, name), fact("employee/role", of, role)]
}

fn pending_employee(changes: &mut Changes, of: &str, name: &str, role: &str) {
    for artifact in employee(of, name, role) {
        changes.associate_unique(artifact.the, artifact.of, artifact.is);
    }
}

#[test]
fn it_unions_two_branches_via_join() {
    let main = branch("main");
    let feature = branch("feature");
    let layer = feature.query().join(QueryLayer::from_branch(&main));
    let env = layer.select(()).prepare(Ok(operator()), &vec![None, None]).unwrap().0;
    let stored =
        vec![employee("id:bob", "Bob", "Designer"), employee("id:alice", "Alice", "Engineer")];
    assert_eq!(
        read(&env, stored.clone(), "employee/name"),
        vec![text("Alice"), text("Bob")]
    );
    assert_eq!(
        read(&env, stored, "employee/role"),
        vec![text("Engineer"), text("Designer")]
    );
}

#[test]
fn it_chains_branch_join_with_statement_overlay() {
    let main = branch("main");
    let scratch = branch("scratch");
    let mut changes = Changes::new();
    pending_employee(&mut changes, "id:synthetic", "Synthetic", "Bot");
    let layer = scratch.query().join(QueryLayer::from_branch(&main)).with(changes);
    let env = layer.select(()).prepare(Ok(operator()), &vec![None, None]).unwrap().0;
    let stored = vec![vec![], employee("id:alice", "Alice", "Engineer")];
    assert_eq!(
        read(&env, stored.clone(), "employee/name"),
        vec![text("Alice"), text("Synthetic")]
    );
    assert_eq!(
        read(&env, stored, "employee/role"),
        vec![text("Engineer"), text("Bot")]
    );
}

#[test]
fn it_reads_a_fact_of_two_branches_once() {
    let main = branch("main");
    let other = branch("other");
    let layer = main.query().join(QueryLayer::from_branch(&other));
    let env = layer.select(()).prepare(Ok(operator()), &vec![None, None]).unwrap().0;
    let stored = vec![
        vec![fact("test/name", "id:b", "Bob")],
        vec![fact("test/name", "id:a", "Alice"), fact("test/name", "id:b", "Bob")],
    ];
    assert_eq!(read(&env, stored, "test/name"), vec![text("Alice"), text("Bob")]);
}

#[test]
fn it_auto_includes_origin_in_metadata() {
    let main = branch("main");
    let env = main.query().select(()).prepare(Ok(operator()), &vec![None]).unwrap().0;
    assert_eq!(
        read(&env, vec![vec![]], "dialog.origin/subject"),
        vec![Value::Entity(Entity::new("did:test:repository"))]
    );
    assert_eq!(
        read(&env, vec![vec![]], "dialog.origin/profile"),
        vec![Value::Entity(Entity::new("did:test:profile"))]
    );
}

#[test]
fn it_auto_includes_schema_branch_in_metadata() {
    let main = branch("main");
    let origin = schema::Origin::new(did("test:profile"), did("test:repository"));
    let env = main.query().select(()).prepare(Ok(operator()), &vec![None]).unwrap().0;
    assert_eq!(read(&env, vec![vec![]], "dialog.branch/name"), vec![text("main")]);
    assert_eq!(
        read(&env, vec![vec![]], "dialog.branch/origin"),
        vec![Value::Entity(origin.this)]
    );
}

#[test]
fn it_auto_includes_branch_revision_after_commit() {
    let main = committed("main", 1);
    let head = Entity::new("id:revision");
    let env = main.query().select(()).prepare(Ok(operator()), &vec![Some(head.clone())]).unwrap().0;
    assert_eq!(
        read(&env, vec![vec![]], "dialog.branch/tree"),
        vec![text("4vJ9JU1bJJE96FWSJKvHsmmFADCg4gpZQff4P3bkLKi")]
    );
    assert_eq!(
        read(&env, vec![vec![]], "dialog.branch/edition"),
        vec![Value::UnsignedInt(1)]
    );
    assert_eq!(
        read(&env, vec![vec![]], "dialog.branch/revision"),
        vec![Value::Entity(head)]
    );
}

#[test]
fn it_omits_branch_revision_before_any_commit() {
    let main = branch("main");
    let env = main.query().select(()).prepare(Ok(operator()), &vec![None]).unwrap().0;
    assert!(read(&env, vec![vec![]], "dialog.branch/tree").is_empty());
    assert!(read(&env, vec![vec![]], "dialog.branch/revision").is_empty());
}

#[test]
fn it_auto_includes_session_branch_attribute_per_branch_in_scope() {
    let main = branch("main");
    let feature = branch("feature");
    let origin = schema::Origin::new(did("test:profile"), main.of().clone());
    let mut expected = vec![
        schema::Branch::new(&origin, "main").this,
        schema::Branch::new(&origin, "feature").this,
    ];
    let layer = feature.query().join(QueryLayer::from_branch(&main));
    let env = layer.select(()).prepare(Ok(operator()), &vec![None, None]).unwrap().0;
    let rows = read(&env, vec![vec![], vec![]], "dialog.session/branch");
    let mut found: Vec<Entity> = rows
        .into_iter()
        .map(|value| match value {
            Value::Entity(entity) => entity,
            other => panic!("not an entity: {other:?}"),
        })
        .collect();
    found.sort();
    expected.sort();
    assert_eq!(found, expected);
}

#[test]
fn it_reflects_overlay_state_on_session_accessors() {
    let main = branch("main");
    let feature = branch("feature");
    let mut changes = Changes::new();
    pending_employee(&mut changes, "id:synth", "Synth", "Bot");
    let layer = feature.query().join(QueryLayer::from_branch(&main)).with(changes.clone());
    assert_eq!(layer.branches().len(), 2);
    assert_eq!(layer.branches()[0].name(), "feature");
    assert_eq!(layer.branches()[1].name(), "main");
    assert!(!layer.changes().is_empty());
    let joined = feature.query().join(QueryLayer::from_changes(changes.clone()));
    assert_eq!(joined.changes(), &changes);
}

#[test]
fn it_starts_with_only_its_branch_and_empty_overlay() {
    let main = branch("main");
    let layer = main.query();
    assert_eq!(layer.branches().len(), 1);
    assert_eq!(layer.branches()[0].name(), "main");
    assert!(layer.changes().is_empty());
    assert!(QueryLayer::new().branches().is_empty());
}

#[test]
fn it_queries_via_session() {
    let main = branch("main");
    let mut stored = employee("id:1", "Alice", "Engineer");
    stored.extend(employee("id:2", "Bob", "Designer"));
    let env = main.query().select(()).prepare(Ok(operator()), &vec![None]).unwrap().0;
    assert_eq!(read(&env, vec![stored.clone()], "employee/name").len(), 2);
    assert_eq!(
        read(&env, vec![stored], "employee/role"),
        vec![text("Engineer"), text("Designer")]
    );
}

#[test]
fn layer_facts_union_with_stored_facts() {
    let main = branch("main");
    let stored = vec![fact("app.meta/name", "id:alice", "Alice")];
    let mut changes = Changes::new();
    changes.associate_unique(
        Attribute::new("app.meta/name"),
        Entity::new("id:branch"),
        text("main"),
    );
    let env = main.with(changes).select(()).prepare(Ok(operator()), &vec![None]).unwrap().0;
    let values = read(&env, vec![stored], "app.meta/name");
    assert_eq!(values, vec![text("Alice"), text("main")]);
}

#[test]
fn it_accumulates_two_cardinality_many_values_in_one_tx() {
    let main = branch("main");
    let mut changes = Changes::new();
    let post = Entity::new("id:post");
    changes.associate(Attribute::new("app.meta/tag"), post.clone(), text("red"));
    changes.associate(Attribute::new("app.meta/tag"), post, text("blue"));
    let env = transaction(&main, &changes);
    assert_eq!(read(&env, vec![vec![]], "app.meta/tag"), vec![text("blue"), text("red")]);
}

#[test]
fn it_auto_includes_session_facts() {
    let main = branch("main");
    let env = main.query().select(()).prepare(Ok(operator()), &vec![None]).unwrap().0;
    assert_eq!(
        read(&env, vec![vec![]], "dialog.session/profile"),
        vec![Value::Entity(did("test:profile").this())]
    );
}

#[test]
fn it_lets_a_user_query_branch_origin_and_session_in_one_session() {
    let main = branch("main");
    let env = main.query().select(()).prepare(Ok(operator()), &vec![None]).unwrap().0;
    let one = |the: &str| {
        let mut rows = read(&env, vec![vec![]], the);
        assert_eq!(rows.len(), 1);
        rows.remove(0)
    };
    assert_eq!(one("dialog.branch/name"), text("main"));
    assert_eq!(one("dialog.origin/subject"), Value::Entity(main.of().this()));
    assert_eq!(one("dialog.origin/profile"), Value::Entity(did("test:profile").this()));
    assert_eq!(one("dialog.session/profile"), Value::Entity(did("test:profile").this()));
}

#[test]
fn it_reflects_latest_revision_after_a_commit() {
    let mut main = committed("main", 1);
    let head = vec![Some(Entity::new("id:revision"))];
    let tree = |main: &Branch| {
        let env = main.query().select(()).prepare(Ok(operator()), &head).unwrap().0;
        let mut rows = read(&env, vec![vec![]], "dialog.branch/tree");
        assert_eq!(rows.len(), 1);
        rows.remove(0)
    };
    let first = tree(&main);
    let next = main.revision().unwrap().advance(
        TreeReference([2; 32]),
        "main",
        did("test:operator"),
        did("test:profile"),
    );
    main.revision.published(next, Version(vec![2]));
    assert_ne!(tree(&main), first);
}

#[test]
fn it_hides_facts_in_every_branch_but_not_in_the_overlay() {
    let main = branch("main");
    let meta = branch("meta");
    let mut changes = Changes::new();
    name_of(&mut changes, "id:a", "New");
    let layer = main.query().join(QueryLayer::from_branch(&meta)).with(changes);
    let env = layer.select(()).prepare(Ok(operator()), &vec![None, None]).unwrap().0;
    let stored = vec![
        vec![fact("test/name", "id:a", "Old")],
        vec![fact("test/name", "id:a", "Older"), fact("test/name", "id:b", "Kept")],
    ];
    assert_eq!(read(&env, stored, "test/name"), vec![text("New"), text("Kept")]);
}

#[test]
fn it_fails_a_query_with_the_first_stream_that_fails() {
    let main = branch("main");
    let env = main.query().select(()).prepare(Ok(operator()), &vec![None]).unwrap().0;
    let error = |text: &str| ArtifactError::Storage(text.to_string());
    let result = env.execute(vec![Ok(vec![]), Err(error("a")), Err(error("b"))], Ok(vec![]));
    assert_eq!(result, Err(error("a")));
    let result = env.execute(vec![Ok(vec![])], Err(error("c")));
    assert_eq!(result, Err(error("c")));
}

#[test]
fn it_reports_why_an_operator_is_unknown() {
    let main = branch("main");
    let locked = || Err(AuthorityError("locked".to_string()));
    let failure = ArtifactError::Storage("identify: locked".to_string());
    let result = main.select(()).prepare(locked(), &vec![None]);
    assert!(matches!(result, Err(error) if error == failure));
    let query = TransactionQuery::new(&main, &Changes::new()).select(());
    let result = query.prepare(locked(), &vec![None]);
    assert!(matches!(result, Err(error) if error == failure));
}

#[test]
fn it_carries_the_query_through() {
    let main = branch("main");
    let (_, query) = main.select("find").prepare(Ok(operator()), &vec![None]).unwrap();
    assert_eq!(query, "find");
    let staged = TransactionQuery::new(&main, &Changes::new()).select(7);
    let (env, query) = staged.prepare(Ok(operator()), &vec![None]).unwrap();
    assert_eq!(query, 7);
    assert_eq!(env.branches.len(), 1);
    let layer = main.query();
    let _ = layer.select(1);
    let again = layer.select(2);
    assert_eq!(again.layer.branches().len(), 1);
}

#[test]
fn it_reads_in_a_transaction_what_the_commit_leaves() {
    let main = branch("main");
    let stored = vec![
        fact("test/name", "id:a", "Old"),
        fact("test/name", "id:a", "Older"),
        fact("test/name", "id:b", "Gone"),
        fact("test/tag", "id:b", "x"),
    ];
    let mut changes = Changes::new();
    name_of(&mut changes, "id:a", "New");
    changes.dissociate(Attribute::new("test/name"), Entity::new("id:b"), text("Gone"));
    changes.associate(Attribute::new("test/tag"), Entity::new("id:b"), text("y"));
    let pending = transaction(&main, &changes);

    let left = vec![
        fact("test/name", "id:a", "New"),
        fact("test/tag", "id:b", "x"),
        fact("test/tag", "id:b", "y"),
    ];
    let after = transaction(&main, &Changes::new());
    for the in ["test/name", "test/tag"] {
        assert_eq!(
            read(&pending, vec![stored.clone()], the),
            read(&after, vec![left.clone()], the)
        );
    }

    // What a transaction takes away again after it added it is still read.
    let mut undone = Changes::new();
    undone.associate(Attribute::new("test/tag"), Entity::new("id:c"), text("z"));
    undone.dissociate(Attribute::new("test/tag"), Entity::new("id:c"), text("z"));
    let env = transaction(&main, &undone);
    assert_eq!(read(&env, vec![vec![]], "test/tag"), vec![text("z")]);
}
