use dialog_repository::artifact::{Artifact, Value};
use dialog_repository::branch::{Branch, BranchReference};
use dialog_repository::changes::Changes;
use dialog_repository::concept::{Attempt, BranchReply, Replies};
use dialog_repository::durable::Reply;
use dialog_repository::error::EvaluationError;
use dialog_repository::identity::{Attribute, Did, Entity};
use dialog_repository::memory::Version;
use dialog_repository::overlay::ConceptRules;
use dialog_repository::revision::{Revision, TreeReference};
use dialog_repository::rules::RuleCache;
use dialog_repository::session::{Operator, QueryEnv, QueryLayer};

fn branch(name: &str, tree: u8) -> Branch {
    let repository = Did::new("did:test:r");
    let operator = Did::new("did:test:o");
    let profile = Did::new("did:test:p");
    let mut branch = Branch::new(BranchReference::new(repository.clone(), name));
    let head = Revision::new(TreeReference([tree; 32]), repository, name, operator, profile);
    branch.revision.published(head, Version(vec![1]));
    branch
}

fn employee() -> Entity {
    Entity::new("concept:employee")
}

fn revision() -> Entity {
    Entity::new("concept:revision")
}

fn parent() -> Entity {
    Entity::new("concept:revision-parent")
}

fn conclusion(rule: &str, concept: &Entity) -> Artifact {
    Artifact {
        the: Attribute::new("db.rule/conclusion"),
        of: Entity::new(rule),
        is: Value::Entity(concept.clone()),
        cause: None,
    }
}

fn source(rule: &str, text: &str) -> Artifact {
    Artifact {
        the: Attribute::new("db.rule/source"),
        of: Entity::new(rule),
        is: Value::Bytes(text.as_bytes().to_vec()),
        cause: None,
    }
}

/// A branch that holds one rule.
fn holds(cache: usize, rule: &str, text: &str, concept: &Entity) -> BranchReply<String> {
    let body = Ok(text.to_uppercase());
    BranchReply {
        cache,
        search: Ok(vec![conclusion(rule, concept)]),
        replies: vec![Reply { claims: Ok(vec![source(rule, text)]), body }],
    }
}

fn attempt(text: &str, compiles: bool) -> Attempt<String> {
    let rule = if compiles { Some(text.to_uppercase()) } else { None };
    Attempt { source: text.as_bytes().to_vec(), rule }
}

fn replies(branches: Vec<BranchReply<String>>, attempts: Vec<Attempt<String>>) -> Replies<String> {
    Replies {
        implicit: "implicit".to_string(),
        revision: "revision".to_string(),
        parent: "parent".to_string(),
        branches,
        attempts,
    }
}

fn pending(facts: Vec<Artifact>) -> Changes {
    let mut changes = Changes::new();
    for artifact in facts {
        changes.associate(artifact.the, artifact.of, artifact.is);
    }
    changes
}

fn env<'a>(layer: QueryLayer<'a>, heads: usize) -> QueryEnv<'a> {
    let operator = Operator { profile: Did::new("did:test:p"), did: Did::new("did:test:o") };
    let heads = vec![Some(Entity::new("id:head")); heads];
    layer.select(()).prepare(Ok(operator), &heads).unwrap().0
}

fn resolved(installed: Vec<&str>) -> Result<ConceptRules<String>, EvaluationError> {
    Ok(ConceptRules {
        implicit: "implicit".to_string(),
        installed: installed.into_iter().map(|rule| rule.to_string()).collect(),
    })
}

#[test]
fn it_selects_the_rules_of_all_layers() {
    let (main, other) = (branch("main", 1), branch("other", 2));
    let changes = pending(vec![
        conclusion("rule:3", &employee()),
        source("rule:3", "bad"),
        source("rule:3", "intern"),
        source("rule:3", "late"),
        conclusion("rule:4", &employee()),
        source("rule:4", "bad"),
        conclusion("rule:5", &revision()),
        source("rule:5", "foreign"),
    ]);
    let layer = main.query().join(QueryLayer::from_branch(&other)).with(changes);
    let env = env(layer, 2);
    let mut caches = vec![RuleCache::new(), RuleCache::new()];
    let answers = replies(
        vec![
            holds(0, "rule:1", "person", &employee()),
            holds(1, "rule:2", "contractor", &employee()),
        ],
        vec![
            attempt("bad", false),
            attempt("intern", true),
            attempt("late", true),
            attempt("foreign", true),
        ],
    );
    let rules = env.select_rules(&employee(), &revision(), &parent(), &mut caches, &answers);
    assert_eq!(rules, resolved(vec!["PERSON", "CONTRACTOR", "INTERN"]));

    // What branches hold is kept, each in its own cache; pending rules are not.
    let kept = |cache: &RuleCache<String>, rule: &str| cache.body(&Entity::new(rule));
    assert_eq!(kept(&caches[0], "rule:1"), Some("PERSON".to_string()));
    assert_eq!(kept(&caches[0], "rule:2"), None);
    assert_eq!(kept(&caches[1], "rule:2"), Some("CONTRACTOR".to_string()));
    for cache in &caches {
        for rule in ["rule:3", "rule:4", "rule:5"] {
            assert_eq!(kept(cache, rule), None);
        }
        assert_eq!(cache.discovered(&revision(), &main.revision().unwrap()), None);
    }
}

#[test]
fn it_selects_what_is_built_in_for_a_concept() {
    let main = branch("main", 1);
    let env = env(main.query(), 1);
    let mut caches = vec![RuleCache::new()];
    let answers = replies(vec![holds(0, "rule:1", "log", &revision())], vec![]);
    let rules = env.select_rules(&revision(), &revision(), &parent(), &mut caches, &answers);
    assert_eq!(rules, resolved(vec!["revision", "LOG"]));
    let answers = replies(
        vec![BranchReply { cache: 0, search: Ok(vec![]), replies: vec![] }],
        vec![],
    );
    let rules = env.select_rules(&parent(), &revision(), &parent(), &mut caches, &answers);
    assert_eq!(rules, resolved(vec!["parent"]));
    let rules = env.select_rules(&employee(), &revision(), &parent(), &mut caches, &answers);
    assert_eq!(rules, resolved(vec![]));
}

#[test]
fn it_selects_no_rules_where_a_branch_cannot_be_read() {
    let (main, other, last) = (branch("main", 1), branch("other", 2), branch("last", 3));
    let layer = main
        .query()
        .join(QueryLayer::from_branch(&other))
        .join(QueryLayer::from_branch(&last));
    let env = env(layer, 3);
    let mut caches = vec![RuleCache::new(), RuleCache::new(), RuleCache::new()];
    let down = |cache: usize, reason: &str| BranchReply {
        cache,
        search: Err(reason.to_string()),
        replies: vec![],
    };
    let branches =
        vec![holds(0, "rule:1", "person", &employee()), down(1, "first"), down(2, "second")];
    let answers = replies(branches, vec![]);
    let rules = env.select_rules(&employee(), &revision(), &parent(), &mut caches, &answers);
    let failure = "rule conclusion lookup: first".to_string();
    assert_eq!(rules, Err(EvaluationError::Store(failure)));
    assert_eq!(caches[0].body(&Entity::new("rule:1")), Some("PERSON".to_string()));
}

#[test]
fn it_reads_a_branch_that_is_joined_twice_from_one_cache() {
    let main = branch("main", 1);
    let env = env(main.query().join(QueryLayer::from_branch(&main)), 2);
    let mut caches = vec![RuleCache::new()];
    let again = BranchReply {
        cache: 0,
        search: Err("not asked for".to_string()),
        replies: vec![Reply {
            claims: Err("not asked for".to_string()),
            body: Err("not asked for".to_string()),
        }],
    };
    let answers = replies(vec![holds(0, "rule:1", "person", &employee()), again], vec![]);
    let rules = env.select_rules(&employee(), &revision(), &parent(), &mut caches, &answers);
    assert_eq!(rules, resolved(vec!["PERSON", "PERSON"]));
}
