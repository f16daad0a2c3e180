//! Deductive rules, read from the layers that a query reads facts from.
//!
//! A rule is stored as two facts on an entity of its own:
//! `db.rule/conclusion` names the concept that it concludes, and
//! `db.rule/source` holds its source in bytes. The rules of a branch are
//! looked up once for each head and compiled once; those of the pending
//! changes are looked up anew for each query and never kept.

use crate::artifact::{Artifact, ArtifactView, Value, ValueView};
use crate::error::{EvaluationError, EvaluationErrorView};
use crate::identity::{Attribute, Entity};
use crate::plain::{copy_all, opt_view, same_all, views, Plain};
use crate::revision::{Revision, RevisionView};
use crate::table::Table;
use vstd::prelude::*;

verus! {

/// Which facts to look up: those that agree with all that is given.
#[derive(Clone, Debug, PartialEq, Eq)]
pub struct Selector {
    /// The attribute.
    pub the: Option<Attribute>,
    /// The entity.
    pub of: Option<Entity>,
    /// The value.
    pub is: Option<Value>,
}

/// What a [`Selector`] holds.
#[verifier::ext_equal]
pub struct SelectorView {
    pub the: Option<Seq<char>>,
    pub of: Option<Seq<char>>,
    pub is: Option<ValueView>,
}

impl View for Selector {
    type V = SelectorView;

    open spec fn view(&self) -> SelectorView {
        SelectorView { the: opt_view(self.the), of: opt_view(self.of), is: opt_view(self.is) }
    }
}

/// The attribute that names what a rule concludes.
pub fn conclusion_attr() -> (result: Attribute)
    ensures
        result@ == "db.rule/conclusion"@,
{
    Attribute::new("db.rule/conclusion")
}

/// The attribute that holds a rule's source.
pub fn source_attr() -> (result: Attribute)
    ensures
        result@ == "db.rule/source"@,
{
    Attribute::new("db.rule/source")
}

/// Finds the rules that conclude the concept.
pub fn conclusion_selector(concept: &Entity) -> (result: Selector)
    ensures
        result@ == (SelectorView {
            the: Some("db.rule/conclusion"@),
            of: None,
            is: Some(ValueView::Entity(concept@)),
        }),
{
    Selector { the: Some(conclusion_attr()), of: None, is: Some(Value::Entity(concept.copy())) }
}

/// Finds the source of the rule.
pub fn source_selector(rule: &Entity) -> (result: Selector)
    ensures
        result@ == (SelectorView { the: Some("db.rule/source"@), of: Some(rule@), is: None }),
{
    Selector { the: Some(source_attr()), of: Some(rule.copy()), is: None }
}

/// The failure of a query that could not read what it needs: what it was
/// about, and why.
pub open spec fn unread(what: Seq<char>, reason: Seq<char>) -> EvaluationErrorView {
    EvaluationErrorView::Store(what + reason)
}

fn read_failure(what: &str, reason: &str) -> (result: EvaluationError)
    ensures
        result@ == unread(what@, reason@),
{
    let mut message = what.to_owned();
    message.append(reason);
    EvaluationError::Store(message)
}

/// The failure to look up which rules conclude a concept.
pub fn conclusion_failure(reason: &str) -> (result: EvaluationError)
    ensures
        result@ == unread("rule conclusion lookup: "@, reason@),
{
    read_failure("rule conclusion lookup: ", reason)
}

/// The failure to look up the source of a rule.
pub fn source_failure(reason: &str) -> (result: EvaluationError)
    ensures
        result@ == unread("rule source lookup: "@, reason@),
{
    read_failure("rule source lookup: ", reason)
}

/// What compiling the source of a rule comes to, where `decoded` is the rule
/// or why there is none.
pub fn hydrate<R: Plain>(decoded: &Result<R, String>) -> (result: Result<R, EvaluationError>)
    ensures
        match *decoded {
            Ok(rule) => result matches Ok(body) && body@ == rule@,
            Err(reason) => result matches Err(failure) && failure@ == unread(
                "rule hydrate: "@,
                reason@,
            ),
        },
{
    match decoded {
        Ok(rule) => Ok(rule.copy()),
        Err(reason) => Err(read_failure("rule hydrate: ", reason.as_str())),
    }
}

/// The entities that the facts are about.
pub open spec fn entities_of(claims: Seq<ArtifactView>) -> Seq<Seq<char>> {
    Seq::new(claims.len(), |i: int| claims[i].of)
}

/// The rules that the facts on what rules conclude are about.
pub fn rule_entities(conclusion_claims: &Vec<Artifact>) -> (result: Vec<Entity>)
    ensures
        views(result@) == entities_of(views(conclusion_claims@)),
{
    let mut result: Vec<Entity> = Vec::new();
    let mut i: usize = 0;
    while i < conclusion_claims.len()
        invariant
            i <= conclusion_claims@.len(),
            result@.len() == i,
            forall|j: int|
                0 <= j < i ==> (#[trigger] result@[j])@ == conclusion_claims@[j]@.of,
        decreases conclusion_claims@.len() - i,
    {
        result.push(conclusion_claims[i].of.copy());
        i += 1;
    }
    assert(views(result@) =~= entities_of(views(conclusion_claims@)));
    result
}

/// The bytes of the first fact that holds bytes.
pub open spec fn first_bytes(claims: Seq<ArtifactView>) -> Option<Seq<u8>>
    decreases claims.len(),
{
    if claims.len() == 0 {
        None
    } else {
        match claims[0].is {
            ValueView::Bytes(bytes) => Some(bytes),
            _ => first_bytes(claims.drop_first()),
        }
    }
}

/// The source among the facts on the source of a rule.
pub fn source_bytes(source_claims: &Vec<Artifact>) -> (result: Option<Vec<u8>>)
    ensures
        opt_view(result) == first_bytes(views(source_claims@)),
{
    let ghost all = views(source_claims@);
    let mut i: usize = 0;
    assert(all.skip(0) =~= all);
    while i < source_claims.len()
        invariant
            i <= source_claims@.len(),
            all == views(source_claims@),
            first_bytes(all) == first_bytes(all.skip(i as int)),
        decreases source_claims@.len() - i,
    {
        assert(all.skip(i as int)[0] == source_claims@[i as int]@);
        match &source_claims[i].is {
            Value::Bytes(bytes) => {
                return Some(bytes.copy());
            },
            _ => {},
        }
        assert(all.skip(i as int).drop_first() =~= all.skip(i + 1));
        i += 1;
    }
    None
}

/// The rules that were found to conclude a concept at a head.
#[derive(Clone, Debug, PartialEq, Eq)]
pub struct Discovery {
    /// The head.
    pub head: Revision,
    /// The rules.
    pub entities: Vec<Entity>,
}

/// What a [`Discovery`] holds.
#[verifier::ext_equal]
pub struct DiscoveryView {
    pub head: RevisionView,
    pub entities: Seq<Seq<char>>,
}

impl View for Discovery {
    type V = DiscoveryView;

    open spec fn view(&self) -> DiscoveryView {
        DiscoveryView { head: self.head@, entities: views(self.entities@) }
    }
}

impl Plain for Discovery {
    fn copy(&self) -> (result: Self) {
        Discovery { head: self.head.copy(), entities: copy_all(&self.entities) }
    }

    fn same(&self, other: &Self) -> (result: bool) {
        self.head.same(&other.head) && same_all(&self.entities, &other.entities)
    }
}

/// What is kept of the rules of a branch: which rules conclude a concept, as
/// of a head, and the compiled rules.
///
/// A rule is named by its content, so that a compiled one never gets old.
#[derive(Clone, Debug)]
pub struct RuleCache<R> {
    /// The rules that conclude a concept.
    pub discovery: Table<Discovery>,
    /// The compiled rules.
    pub bodies: Table<R>,
}

/// What a [`RuleCache`] holds.
#[verifier::ext_equal]
pub struct RuleCacheView<V> {
    pub discovery: Map<Seq<char>, DiscoveryView>,
    pub bodies: Map<Seq<char>, V>,
}

impl<V> RuleCacheView<V> {
    /// The rules known to conclude the concept at the head.
    pub open spec fn discovered(
        self,
        concept: Seq<char>,
        head: Option<RevisionView>,
    ) -> Option<Seq<Seq<char>>> {
        match head {
            Some(head) => if self.discovery.contains_key(concept) && self.discovery[concept].head
                == head {
                Some(self.discovery[concept].entities)
            } else {
                None
            },
            None => None,
        }
    }

    /// With the rules that conclude the concept at the head.
    pub open spec fn with_discovery(
        self,
        concept: Seq<char>,
        head: RevisionView,
        entities: Seq<Seq<char>>,
    ) -> RuleCacheView<V> {
        RuleCacheView {
            discovery: self.discovery.insert(concept, DiscoveryView { head, entities }),
            ..self
        }
    }

    /// With a compiled rule.
    pub open spec fn with_body(self, rule: Seq<char>, body: V) -> RuleCacheView<V> {
        RuleCacheView { bodies: self.bodies.insert(rule, body), ..self }
    }
}

impl<R: View> View for RuleCache<R> {
    type V = RuleCacheView<R::V>;

    open spec fn view(&self) -> RuleCacheView<R::V> {
        RuleCacheView { discovery: self.discovery@, bodies: self.bodies@ }
    }
}

impl<R: Plain> RuleCache<R> {
    /// A cache that holds nothing.
    pub fn new() -> (result: RuleCache<R>)
        ensures
            result@ == (RuleCacheView::<R::V> { discovery: Map::empty(), bodies: Map::empty() }),
    {
        RuleCache { discovery: Table::new(), bodies: Table::new() }
    }

    /// The rules known to conclude the concept at the head; nothing where
    /// they are not known, or known of another head.
    pub fn discovered(&self, concept: &Entity, head: &Revision) -> (result: Option<Vec<Entity>>)
        ensures
            self@.discovered(concept@, Some(head@)) == (match result {
                Some(entities) => Some(views(entities@)),
                None => None,
            }),
    {
        match self.discovery.get(concept) {
            Some(discovery) => if discovery.head.same(head) {
                Some(copy_all(&discovery.entities))
            } else {
                None
            },
            None => None,
        }
    }

    /// Keeps the rules that conclude the concept at the head.
    pub fn record_discovery(&mut self, concept: Entity, head: Revision, entities: Vec<Entity>)
        ensures
            final(self)@ == old(self)@.with_discovery(concept@, head@, views(entities@)),
    {
        self.discovery.insert(concept, Discovery { head, entities });
    }

    /// The compiled rule, if it is kept.
    pub fn body(&self, rule: &Entity) -> (result: Option<R>)
        ensures
            opt_view(result) == (if self@.bodies.contains_key(rule@) {
                Some(self@.bodies[rule@])
            } else {
                None
            }),
    {
        match self.bodies.get(rule) {
            Some(body) => Some(body.copy()),
            None => None,
        }
    }

    /// Keeps a compiled rule.
    pub fn record_body(&mut self, rule: Entity, body: R)
        ensures
            final(self)@ == old(self)@.with_body(rule@, body@),
    {
        self.bodies.insert(rule, body);
    }
}

/// The rules that facts are about are the entities of the facts, one for each,
/// in order.
pub proof fn law_each_fact_names_a_rule(claims: Seq<ArtifactView>)
    ensures
        entities_of(claims).len() == claims.len(),
        forall|i: int| 0 <= i < claims.len() ==> #[trigger] entities_of(claims)[i] == claims[i].of,
{
}

/// The source of a rule is the first among its facts that holds bytes; a rule
/// without one has none.
pub proof fn law_first_bytes_count(claims: Seq<ArtifactView>, i: int)
    ensures
        0 <= i < claims.len() && claims[i].is is Bytes && (forall|j: int|
            0 <= j < i ==> !((#[trigger] claims[j]).is is Bytes)) ==> first_bytes(claims) == Some(
            claims[i].is->Bytes_0,
        ),
        (forall|j: int| 0 <= j < claims.len() ==> !((#[trigger] claims[j]).is is Bytes))
            ==> first_bytes(claims) is None,
    decreases claims.len(),
{
    if claims.len() > 0 {
        let rest = claims.drop_first();
        law_first_bytes_count(rest, i - 1);
        if 0 < i < claims.len() && forall|j: int|
            0 <= j < i ==> !((#[trigger] claims[j]).is is Bytes) {
            assert(!(claims[0].is is Bytes));
            assert(rest[i - 1] == claims[i]);
            assert forall|j: int| 0 <= j < i - 1 implies !((#[trigger] rest[j]).is is Bytes) by {
                assert(rest[j] == claims[j + 1]);
            }
        }
        if forall|j: int| 0 <= j < claims.len() ==> !((#[trigger] claims[j]).is is Bytes) {
            assert(!(claims[0].is is Bytes));
            assert forall|j: int| 0 <= j < rest.len() implies !(
            (#[trigger] rest[j]).is is Bytes) by {
                assert(rest[j] == claims[j + 1]);
            }
        }
    }
}

/// What could not be read is told as what it was about and then why.
pub proof fn law_failures_tell_why(what: Seq<char>, reason: Seq<char>)
    ensures
        unread(what, reason) == EvaluationErrorView::Store(what + reason),
{
}

/// What is kept of a concept or of a rule is found again, and leaves all else
/// that is kept as it is. What is kept of a concept holds at its head alone.
pub proof fn law_what_is_kept_is_found<V>(
    cache: RuleCacheView<V>,
    concept: Seq<char>,
    head: RevisionView,
    entities: Seq<Seq<char>>,
    rule: Seq<char>,
    body: V,
    at: Option<RevisionView>,
)
    ensures
        ({
            let after = cache.with_discovery(concept, head, entities);
            &&& after.discovered(concept, at) == (if at == Some(head) {
                Some(entities)
            } else {
                None
            })
            &&& after.bodies == cache.bodies
            &&& after.discovery.remove(concept) == cache.discovery.remove(concept)
        }),
        ({
            let after = cache.with_body(rule, body);
            &&& after.bodies.contains_key(rule)
            &&& after.bodies[rule] == body
            &&& after.bodies.remove(rule) == cache.bodies.remove(rule)
            &&& after.discovery == cache.discovery
        }),
{
    let after = cache.with_discovery(concept, head, entities);
    assert(after.discovery.remove(concept) =~= cache.discovery.remove(concept));
    let after = cache.with_body(rule, body);
    assert(after.bodies.remove(rule) =~= cache.bodies.remove(rule));
}

} // verus!
