use dialog_repository::artifact::{Artifact, Value};
use dialog_repository::changes::Changes;
use dialog_repository::durable::{durable_rules, Reply};
use dialog_repository::error::EvaluationError;
use dialog_repository::identity::{Attribute, Did, Entity};
use dialog_repository::overlay::{
    builtin, layered_rules, overlay_rules, overlay_sources, resolve_rules, Cardinality, Formula,
    Term,
};
use dialog_repository::revision::{Revision, TreeReference};
use dialog_repository::rules::{
    conclusion_selector, rule_entities, source_bytes, source_selector, RuleCache,
};

/// A branch: its head, the facts that it holds, and what is kept of its rules.
struct Layer {
    head: Option<Revision>,
    facts: Vec<Artifact>,
    cache: RuleCache<String>,
    searches: usize,
    compiled: usize,
}

fn head(tree: u8) -> Option<Revision> {
    Some(Revision::new(
        TreeReference([tree; 32]),
        Did::new("did:test:r"),
        "main",
        Did::new("did:test:o"),
        Did::new("did:test:p"),
    ))
}

fn employee() -> Entity {
    Entity::new("concept:employee")
}

fn fact(the: &str, of: &str, is: Value) -> Artifact {
    Artifact { the: Attribute::new(the), of: Entity::new(of), is, cause: None }
}

fn rule(entity: &str, source: &str) -> Vec<Artifact> {
    vec![
        fact("db.rule/conclusion", entity, Value::Entity(employee())),
        fact("db.rule/source", entity, Value::Bytes(source.as_bytes().to_vec())),
    ]
}

fn compile(source: &[u8]) -> Result<String, String> {
    let text = String::from_utf8(source.to_vec()).unwrap();
    if text.starts_with("bad") {
        Err(text)
    } else {
        Ok(text.to_uppercase())
    }
}

impl Layer {
    fn new(tree: u8, facts: Vec<Artifact>) -> Layer {
        Layer { head: head(tree), facts, cache: RuleCache::new(), searches: 0, compiled: 0 }
    }

    fn find(&self, the: &str) -> Vec<Artifact> {
        self.facts.iter().filter(|f| f.the.0 == the).cloned().collect()
    }

    fn rules(&mut self) -> Result<Vec<String>, EvaluationError> {
        let known = self.head.as_ref().and_then(|h| self.cache.discovered(&employee(), h));
        let concluding: Vec<Artifact> = self
            .find("db.rule/conclusion")
            .into_iter()
            .filter(|f| f.is == Value::Entity(employee()))
            .collect();
        if known.is_none() {
            self.searches += 1;
        }
        let entities = known.unwrap_or_else(|| rule_entities(&concluding));
        let mut replies = Vec::new();
        for entity in &entities {
            let claims: Vec<Artifact> =
                self.find("db.rule/source").into_iter().filter(|f| f.of == *entity).collect();
            if self.cache.body(entity).is_none() {
                self.compiled += 1;
            }
            let body = match source_bytes(&claims) {
                Some(source) => compile(&source),
                None => Err("unused".to_string()),
            };
            replies.push(Reply { claims: Ok(claims), body });
        }
        durable_rules(&mut self.cache, &employee(), &self.head, &Ok(concluding), &replies)
    }
}

fn transient(changes: &Changes) -> Vec<String> {
    let sources = overlay_sources(changes, &employee());
    let compiled = sources
        .into_iter()
        .map(|list| list.iter().map(|source| compile(source).ok()).collect())
        .collect();
    overlay_rules(compiled)
}

fn pending(entity: &str, source: &str) -> Changes {
    let mut changes = Changes::new();
    for artifact in rule(entity, source) {
        changes.associate(artifact.the, artifact.of, artifact.is);
    }
    changes
}

#[test]
fn it_resolves_a_committed_rule() {
    let mut layer = Layer::new(1, rule("rule:1", "person"));
    assert_eq!(layer.rules(), Ok(vec!["PERSON".to_string()]));
}

#[test]
fn it_returns_empty_when_no_rules() {
    let mut layer = Layer::new(1, vec![]);
    assert_eq!(layer.rules(), Ok(vec![]));
    assert!(transient(&Changes::new()).is_empty());
}

#[test]
fn it_resolves_an_overlay_rule() {
    assert_eq!(transient(&pending("rule:1", "person")), vec!["PERSON".to_string()]);
}

#[test]
fn it_resolves_overlay_rule_after_prior_query() {
    let mut layer = Layer::new(1, vec![]);
    assert_eq!(layer.rules(), Ok(vec![]));
    let rules = layered_rules(
        None,
        vec![layer.rules().unwrap()],
        transient(&pending("rule:1", "person")),
    );
    assert_eq!(rules, vec!["PERSON".to_string()]);
}

#[test]
fn it_does_not_leak_overlay_rule_into_later_query() {
    let mut layer = Layer::new(1, vec![]);
    let rules = layered_rules(
        None,
        vec![layer.rules().unwrap()],
        transient(&pending("rule:1", "person")),
    );
    assert_eq!(rules.len(), 1);
    assert_eq!(layer.rules(), Ok(vec![]));
    assert_eq!(layer.cache.body(&Entity::new("rule:1")), None);
}

#[test]
fn it_invalidates_discovery_on_head_move() {
    let mut layer = Layer::new(1, vec![]);
    assert_eq!(layer.rules(), Ok(vec![]));
    layer.facts = rule("rule:1", "person");
    layer.head = head(2);
    assert_eq!(layer.rules(), Ok(vec!["PERSON".to_string()]));
    assert_eq!(layer.searches, 2);
}

#[test]
fn it_resolves_two_distinct_rules_and_reuses_bodies() {
    let mut facts = rule("rule:1", "person");
    facts.extend(rule("rule:2", "contractor"));
    let mut layer = Layer::new(1, facts);
    let both = Ok(vec!["PERSON".to_string(), "CONTRACTOR".to_string()]);
    assert_eq!(layer.rules(), both);
    assert_eq!(layer.rules(), both);
    assert_eq!((layer.searches, layer.compiled), (1, 2));
}

#[test]
fn it_unions_committed_and_overlay_rules() {
    let mut layer = Layer::new(1, rule("rule:1", "person"));
    let rules = layered_rules(
        None,
        vec![layer.rules().unwrap()],
        transient(&pending("rule:2", "contractor")),
    );
    assert_eq!(rules, vec!["PERSON".to_string(), "CONTRACTOR".to_string()]);
}

#[test]
fn it_keeps_discovery_cached_until_head_advances() {
    let mut stale = Layer::new(1, vec![]);
    assert_eq!(stale.rules(), Ok(vec![]));
    stale.facts = rule("rule:1", "person");
    assert_eq!(stale.rules(), Ok(vec![]), "a handle at the old head keeps what it found");
    let mut fresh = Layer::new(2, rule("rule:1", "person"));
    assert_eq!(fresh.rules(), Ok(vec!["PERSON".to_string()]));
}

#[test]
fn it_unions_rules_across_joined_branches() {
    let mut main = Layer::new(1, rule("rule:1", "person"));
    let mut other = Layer::new(2, rule("rule:2", "contractor"));
    let rules = layered_rules(
        Some("BUILT".to_string()),
        vec![main.rules().unwrap(), other.rules().unwrap()],
        vec![],
    );
    assert_eq!(
        rules,
        vec!["BUILT".to_string(), "PERSON".to_string(), "CONTRACTOR".to_string()]
    );
}

#[test]
fn it_invalidates_discovery_when_a_rule_is_retracted() {
    let mut layer = Layer::new(1, rule("rule:1", "person"));
    assert_eq!(layer.rules().unwrap().len(), 1);
    layer.facts.clear();
    layer.head = head(2);
    assert_eq!(layer.rules(), Ok(vec![]));
}

#[test]
fn it_does_not_reuse_a_body_across_distinct_rule_entities() {
    let mut layer = Layer::new(1, rule("rule:1", "person"));
    assert_eq!(layer.rules(), Ok(vec!["PERSON".to_string()]));
    layer.facts.extend(rule("rule:2", "agent"));
    layer.head = head(2);
    assert_eq!(layer.rules(), Ok(vec!["PERSON".to_string(), "AGENT".to_string()]));
    assert_eq!(layer.compiled, 2);
}

#[test]
fn it_searches_a_branch_without_a_head_every_time() {
    let mut layer = Layer::new(1, rule("rule:1", "person"));
    layer.head = None;
    assert_eq!(layer.rules().unwrap().len(), 1);
    assert_eq!(layer.rules().unwrap().len(), 1);
    assert_eq!((layer.searches, layer.compiled), (2, 1));
}

#[test]
fn it_leaves_out_a_rule_without_a_source() {
    let mut facts = vec![fact("db.rule/conclusion", "rule:0", Value::Entity(employee()))];
    facts.extend(rule("rule:1", "person"));
    let mut layer = Layer::new(1, facts);
    assert_eq!(layer.rules(), Ok(vec!["PERSON".to_string()]));
}

#[test]
fn it_fails_with_the_first_rule_that_does_not_compile() {
    let mut facts = rule("rule:1", "person");
    facts.extend(rule("rule:2", "bad"));
    facts.extend(rule("rule:3", "agent"));
    let mut layer = Layer::new(1, facts);
    let failure = EvaluationError::Store("rule hydrate: bad".to_string());
    assert_eq!(layer.rules(), Err(failure));
    assert_eq!(layer.cache.body(&Entity::new("rule:1")), Some("PERSON".to_string()));
    assert_eq!(layer.cache.body(&Entity::new("rule:3")), None);
}

#[test]
fn it_fails_when_the_search_or_a_lookup_fails() {
    let down = || "down".to_string();
    let mut cache: RuleCache<String> = RuleCache::new();
    let result = durable_rules(&mut cache, &employee(), &head(1), &Err(down()), &Vec::new());
    let failure = "rule conclusion lookup: down".to_string();
    assert_eq!(result, Err(EvaluationError::Store(failure)));
    let reply = Reply { claims: Err(down()), body: Ok(String::new()) };
    let claims = vec![fact("db.rule/conclusion", "rule:1", Value::Entity(employee()))];
    let result = durable_rules(&mut cache, &employee(), &head(1), &Ok(claims), &vec![reply]);
    let failure = "rule source lookup: down".to_string();
    assert_eq!(result, Err(EvaluationError::Store(failure)));
}

#[test]
fn it_takes_the_first_pending_source_that_compiles() {
    let mut changes = pending("rule:1", "bad");
    let source = Attribute::new("db.rule/source");
    changes.associate_unique(
        source,
        Entity::new("rule:1"),
        Value::Bytes(b"person".to_vec()),
    );
    assert_eq!(transient(&changes), vec!["PERSON".to_string()]);
    assert!(transient(&pending("rule:2", "bad")).is_empty());
}

#[test]
fn it_ignores_retracted_and_foreign_pending_rules() {
    let mut changes = Changes::new();
    changes.dissociate(
        Attribute::new("db.rule/conclusion"),
        Entity::new("rule:1"),
        Value::Entity(employee()),
    );
    changes.associate(
        Attribute::new("db.rule/conclusion"),
        Entity::new("rule:2"),
        Value::Entity(Entity::new("concept:other")),
    );
    assert!(overlay_sources(&changes, &employee()).is_empty());
}

#[test]
fn it_selects_rules_by_conclusion_and_by_entity() {
    let selector = conclusion_selector(&employee());
    assert_eq!(selector.the.unwrap().0, "db.rule/conclusion");
    assert_eq!(selector.is, Some(Value::Entity(employee())));
    assert_eq!(selector.of, None);
    let selector = source_selector(&Entity::new("rule:1"));
    assert_eq!(selector.the.unwrap().0, "db.rule/source");
    assert_eq!(selector.of, Some(Entity::new("rule:1")));
    assert_eq!(selector.is, None);
}

#[test]
fn it_builds_in_a_rule_for_each_derived_concept() {
    let revision = Entity::new("concept:revision");
    let parent = Entity::new("concept:revision-parent");
    assert_eq!(builtin(&employee(), &revision, &parent), None);

    let rule = builtin(&revision, &revision, &parent).unwrap();
    assert_eq!(rule.conclusion, revision);
    assert_eq!(rule.formula, Formula::Revision);
    let fields: Vec<&str> = rule.bindings.iter().map(|b| b.field.as_str()).collect();
    assert_eq!(fields, vec!["of", "this", "lineage", "issuer", "authority", "edition"]);
    assert_eq!(rule.bindings[0].term, Term::Variable("record".to_string()));
    assert_eq!(rule.scan.is, Term::Record("record".to_string()));
    assert_eq!(rule.scan.of, Term::Variable("this".to_string()));
    assert_eq!(rule.scan.cause, Term::Blank);
    assert_eq!(rule.scan.cardinality, Some(Cardinality::One));
    let attribute = Attribute::new("dialog.db/revision");
    assert_eq!(rule.scan.the, Term::Constant(Value::Symbol(attribute)));

    let rule = builtin(&parent, &revision, &parent).unwrap();
    assert_eq!(rule.formula, Formula::RevisionParent);
    let fields: Vec<&str> = rule.bindings.iter().map(|b| b.field.as_str()).collect();
    assert_eq!(fields, vec!["of", "this", "parent"]);
}

#[test]
fn it_fails_with_the_first_branch_whose_rules_cannot_be_read() {
    let store = |text: &str| EvaluationError::Store(text.to_string());
    let rules = |name: &str| Ok(vec![name.to_string()]);
    let compiled = || vec![vec![None, Some("pending".to_string())]];
    let implicit = || "implicit".to_string();

    let all = resolve_rules(implicit(), None, vec![rules("a"), rules("b")], compiled()).unwrap();
    assert_eq!(all.implicit, "implicit");
    assert_eq!(all.installed, vec!["a", "b", "pending"]);
    let built_in = Some("built in".to_string());
    let all = resolve_rules(implicit(), built_in, vec![rules("a")], vec![]).unwrap();
    assert_eq!(all.installed, vec!["built in", "a"]);

    let durable = vec![rules("a"), Err(store("x")), Err(store("y"))];
    assert_eq!(resolve_rules(implicit(), None, durable, compiled()), Err(store("x")));
}
