//! Rules beside those of the branches: those of pending changes, and those
//! that are built in.

use crate::artifact::{Value, ValueView};
use crate::changes::{Change, ChangeView, Changes, Pending, PendingView};
use crate::error::EvaluationError;
use crate::identity::{Attribute, Entity};
use crate::layer::reversed;
use crate::plain::{lemma_views_push, views, Plain};
use crate::rules::{conclusion_attr, source_attr};
use vstd::prelude::*;

verus! {

/// The value that a change adds.
pub open spec fn added(change: ChangeView) -> Option<ValueView> {
    match change {
        ChangeView::Assert(value) => Some(value),
        ChangeView::Replace(value) => Some(value),
        ChangeView::Retract(_) => None,
    }
}

/// Whether the change states that a rule concludes the concept.
pub open spec fn concludes(pending: PendingView, concept: Seq<char>) -> bool {
    pending.the == "db.rule/conclusion"@ && added(pending.change) == Some(
        ValueView::Entity(concept),
    )
}

/// The rules that the changes state to conclude the concept, in order.
pub open spec fn concluding(changes: Seq<PendingView>, concept: Seq<char>) -> Seq<Seq<char>>
    decreases changes.len(),
{
    if changes.len() == 0 {
        Seq::empty()
    } else {
        let before = concluding(changes.drop_last(), concept);
        if concludes(changes.last(), concept) {
            before.push(changes.last().of)
        } else {
            before
        }
    }
}

/// The source that the change states of the rule.
pub open spec fn source_of(pending: PendingView, rule: Seq<char>) -> Option<Seq<u8>> {
    if pending.of == rule && pending.the == "db.rule/source"@ {
        match added(pending.change) {
            Some(ValueView::Bytes(bytes)) => Some(bytes),
            _ => None,
        }
    } else {
        None
    }
}

/// The sources that the changes state of the rule, in order.
pub open spec fn sources_of(changes: Seq<PendingView>, rule: Seq<char>) -> Seq<Seq<u8>>
    decreases changes.len(),
{
    if changes.len() == 0 {
        Seq::empty()
    } else {
        let before = sources_of(changes.drop_last(), rule);
        match source_of(changes.last(), rule) {
            Some(bytes) => before.push(bytes),
            None => before,
        }
    }
}

fn is_concluding(pending: &Pending, concept: &Entity) -> (result: bool)
    ensures
        result == concludes(pending@, concept@),
{
    if !pending.the.same(&conclusion_attr()) {
        return false;
    }
    match &pending.change {
        Change::Assert(Value::Entity(entity)) => entity.same(concept),
        Change::Replace(Value::Entity(entity)) => entity.same(concept),
        _ => false,
    }
}

fn source_in(pending: &Pending, rule: &Entity) -> (result: Option<Vec<u8>>)
    ensures
        crate::plain::opt_view(result) == source_of(pending@, rule@),
{
    if !pending.of.same(rule) || !pending.the.same(&source_attr()) {
        return None;
    }
    match &pending.change {
        Change::Assert(Value::Bytes(bytes)) => Some(bytes.copy()),
        Change::Replace(Value::Bytes(bytes)) => Some(bytes.copy()),
        _ => None,
    }
}

/// Finds the rules that the changes state to conclude the concept.
pub fn overlay_entities(changes: &Changes, concept: &Entity) -> (result: Vec<Entity>)
    ensures
        views(result@) == concluding(changes@, concept@),
{
    let mut result: Vec<Entity> = Vec::new();
    let mut i: usize = 0;
    assert(views(result@) =~= concluding(changes@.take(0), concept@));
    while i < changes.log.len()
        invariant
            i <= changes.log@.len(),
            views(result@) == concluding(changes@.take(i as int), concept@),
        decreases changes.log@.len() - i,
    {
        let pending = &changes.log[i];
        assert(changes@.take(i + 1).drop_last() =~= changes@.take(i as int));
        assert(changes@.take(i + 1).last() == pending@);
        if is_concluding(pending, concept) {
            let entity = pending.of.copy();
            proof {
                lemma_views_push(result@, entity);
            }
            result.push(entity);
        }
        i += 1;
    }
    assert(changes@.take(i as int) =~= changes@);
    result
}

/// Finds the sources that the changes state of the rule.
pub fn rule_sources(changes: &Changes, rule: &Entity) -> (result: Vec<Vec<u8>>)
    ensures
        views(result@) == sources_of(changes@, rule@),
{
    let mut result: Vec<Vec<u8>> = Vec::new();
    let mut i: usize = 0;
    assert(views(result@) =~= sources_of(changes@.take(0), rule@));
    while i < changes.log.len()
        invariant
            i <= changes.log@.len(),
            views(result@) == sources_of(changes@.take(i as int), rule@),
        decreases changes.log@.len() - i,
    {
        let pending = &changes.log[i];
        assert(changes@.take(i + 1).drop_last() =~= changes@.take(i as int));
        assert(changes@.take(i + 1).last() == pending@);
        if let Some(bytes) = source_in(pending, rule) {
            proof {
                lemma_views_push(result@, bytes);
            }
            result.push(bytes);
        }
        i += 1;
    }
    assert(changes@.take(i as int) =~= changes@);
    result
}

/// The sources of each rule that the changes state to conclude the concept.
pub open spec fn overlay_candidates(
    changes: Seq<PendingView>,
    concept: Seq<char>,
) -> Seq<Seq<Seq<u8>>> {
    Seq::new(
        concluding(changes, concept).len(),
        |i: int| sources_of(changes, concluding(changes, concept)[i]),
    )
}

/// Finds what is to be compiled: the sources of each rule that the changes
/// state to conclude the concept.
pub fn overlay_sources(changes: &Changes, concept: &Entity) -> (result: Vec<Vec<Vec<u8>>>)
    ensures
        Seq::new(result@.len(), |i: int| views(result@[i]@)) == overlay_candidates(
            changes@,
            concept@,
        ),
{
    let entities = overlay_entities(changes, concept);
    let mut result: Vec<Vec<Vec<u8>>> = Vec::new();
    let mut i: usize = 0;
    while i < entities.len()
        invariant
            i <= entities@.len(),
            views(entities@) == concluding(changes@, concept@),
            result@.len() == i,
            forall|j: int|
                0 <= j < i ==> views((#[trigger] result@[j])@) == sources_of(
                    changes@,
                    views(entities@)[j],
                ),
        decreases entities@.len() - i,
    {
        assert(views(entities@)[i as int] == entities@[i as int]@);
        result.push(rule_sources(changes, &entities[i]));
        i += 1;
    }
    assert(Seq::new(result@.len(), |i: int| views(result@[i]@)) =~= overlay_candidates(
        changes@,
        concept@,
    ));
    result
}

/// The first of the sources of a rule that compiled.
pub open spec fn first_compiled<R>(compiled: Seq<Option<R>>) -> Option<R>
    decreases compiled.len(),
{
    if compiled.len() == 0 {
        None
    } else if compiled[0] is Some {
        compiled[0]
    } else {
        first_compiled(compiled.drop_first())
    }
}

/// For each rule the first of its sources that compiled; nothing for a rule
/// of which none did.
pub open spec fn all_compiled<R>(compiled: Seq<Vec<Option<R>>>) -> Seq<R>
    decreases compiled.len(),
{
    if compiled.len() == 0 {
        Seq::empty()
    } else {
        let before = all_compiled(compiled.drop_last());
        match first_compiled(compiled.last()@) {
            Some(rule) => before.push(rule),
            None => before,
        }
    }
}

fn take_first<R>(compiled: Vec<Option<R>>) -> (result: Option<R>)
    ensures
        result == first_compiled(compiled@),
{
    let ghost all = compiled@;
    let mut rest = reversed(compiled);
    assert(all.skip(0) =~= all);
    while rest.len() > 0
        invariant
            all == compiled@,
            rest@.len() <= all.len(),
            rest@ == all.skip(all.len() - rest@.len()).reverse(),
            first_compiled(all) == first_compiled(all.skip(all.len() - rest@.len())),
        decreases rest@.len(),
    {
        let ghost left = all.skip(all.len() - rest@.len());
        if let Some(candidate) = rest.pop() {
            assert(candidate == left[0]);
            assert(left.drop_first() =~= all.skip(all.len() - rest@.len()));
            assert(rest@ =~= left.drop_first().reverse());
            if candidate.is_some() {
                return candidate;
            }
        }
    }
    None
}

/// Gathers the rules of the pending changes from what came of compiling their
/// sources.
pub fn overlay_rules<R>(compiled: Vec<Vec<Option<R>>>) -> (result: Vec<R>)
    ensures
        result@ == all_compiled(compiled@),
{
    let ghost all = compiled@;
    let mut rest = reversed(compiled);
    let mut result: Vec<R> = Vec::new();
    assert(all.take(0) =~= Seq::empty());
    while rest.len() > 0
        invariant
            rest@.len() <= all.len(),
            rest@ == all.skip(all.len() - rest@.len()).reverse(),
            result@ == all_compiled(all.take(all.len() - rest@.len())),
        decreases rest@.len(),
    {
        let ghost k = all.len() - rest@.len();
        if let Some(candidates) = rest.pop() {
            assert(candidates == all[k]);
            assert(all.take(k + 1).drop_last() =~= all.take(k));
            assert(rest@ =~= all.skip(k + 1).reverse());
            if let Some(rule) = take_first(candidates) {
                result.push(rule);
            }
        }
    }
    assert(all.take(all.len() as int) =~= all);
    result
}

/// Changes that state nothing of rules bring none.
pub proof fn law_other_changes_bring_no_rules(changes: Seq<PendingView>, concept: Seq<char>)
    requires
        forall|i: int|
            0 <= i < changes.len() ==> (#[trigger] changes[i]).the != "db.rule/conclusion"@,
    ensures
        concluding(changes, concept).len() == 0,
        overlay_candidates(changes, concept).len() == 0,
    decreases changes.len(),
{
    if changes.len() > 0 {
        let init = changes.drop_last();
        assert forall|i: int| 0 <= i < init.len() implies (#[trigger] init[i]).the
            != "db.rule/conclusion"@ by {
            assert(init[i] == changes[i]);
        }
        law_other_changes_bring_no_rules(init, concept);
        assert(changes[changes.len() - 1] == changes.last());
    }
}

/// Part of a premise: a variable, a value, or whatever is there.
#[derive(Clone, Debug, PartialEq, Eq)]
pub enum Term {
    /// A variable.
    Variable(String),
    /// A variable that only records match.
    Record(String),
    /// A value.
    Constant(Value),
    /// Whatever is there.
    Blank,
}

/// What a [`Term`] holds.
#[verifier::ext_equal]
pub enum TermView {
    Variable(Seq<char>),
    Record(Seq<char>),
    Constant(ValueView),
    Blank,
}

impl View for Term {
    type V = TermView;

    open spec fn view(&self) -> TermView {
        match self {
            Term::Variable(name) => TermView::Variable(name@),
            Term::Record(name) => TermView::Record(name@),
            Term::Constant(value) => TermView::Constant(value@),
            Term::Blank => TermView::Blank,
        }
    }
}

/// How many facts of an attribute an entity has.
#[derive(Clone, Copy, Debug, PartialEq, Eq)]
pub enum Cardinality {
    /// The last one that was stated.
    One,
    /// All of them.
    Many,
}

/// A premise that looks up facts.
#[derive(Clone, Debug, PartialEq, Eq)]
pub struct Scan {
    /// The attribute.
    pub the: Term,
    /// The entity.
    pub of: Term,
    /// The value.
    pub is: Term,
    /// The superseded fact.
    pub cause: Term,
    /// How many facts an entity has.
    pub cardinality: Option<Cardinality>,
}

/// What a [`Scan`] holds.
#[verifier::ext_equal]
pub struct ScanView {
    pub the: TermView,
    pub of: TermView,
    pub is: TermView,
    pub cause: TermView,
    pub cardinality: Option<Cardinality>,
}

impl View for Scan {
    type V = ScanView;

    open spec fn view(&self) -> ScanView {
        ScanView {
            the: self.the@,
            of: self.of@,
            is: self.is@,
            cause: self.cause@,
            cardinality: self.cardinality,
        }
    }
}

/// Which fields of a record a formula reads. A formula refuses a record that
/// is not signed by its issuer.
#[derive(Clone, Copy, Debug, PartialEq, Eq)]
pub enum Formula {
    /// The lineage, the issuer, the authority and the edition.
    Revision,
    /// The parents, one after another.
    RevisionParent,
}

/// One field that a formula binds: its name and the variable.
#[derive(Clone, Debug, PartialEq, Eq)]
pub struct Binding {
    /// The field.
    pub field: String,
    /// What it is bound to.
    pub term: Term,
}

impl View for Binding {
    type V = (Seq<char>, TermView);

    open spec fn view(&self) -> (Seq<char>, TermView) {
        (self.field@, self.term@)
    }
}

/// A rule that reads the fields of a revision's record.
#[derive(Clone, Debug, PartialEq, Eq)]
pub struct Projection {
    /// The concept that the rule concludes.
    pub conclusion: Entity,
    /// The premise that finds the record.
    pub scan: Scan,
    /// The formula that reads it.
    pub formula: Formula,
    /// What the formula binds.
    pub bindings: Vec<Binding>,
}

/// What a [`Projection`] holds.
#[verifier::ext_equal]
pub struct ProjectionView {
    pub conclusion: Seq<char>,
    pub scan: ScanView,
    pub formula: Formula,
    pub bindings: Seq<(Seq<char>, TermView)>,
}

impl View for Projection {
    type V = ProjectionView;

    open spec fn view(&self) -> ProjectionView {
        ProjectionView {
            conclusion: self.conclusion@,
            scan: self.scan@,
            formula: self.formula,
            bindings: views(self.bindings@),
        }
    }
}

/// The premise that finds the record of a revision. It shares its entity with
/// the formula, which derives the entity from what the record holds: a record
/// that was put on another revision's entity is not found.
pub open spec fn record_scan() -> ScanView {
    ScanView {
        the: TermView::Constant(ValueView::Symbol("dialog.db/revision"@)),
        of: TermView::Variable("this"@),
        is: TermView::Record("record"@),
        cause: TermView::Blank,
        cardinality: Some(Cardinality::One),
    }
}

/// The rule that reads fields of a record.
pub open spec fn projection(
    conclusion: Seq<char>,
    formula: Formula,
    bindings: Seq<(Seq<char>, TermView)>,
) -> ProjectionView {
    ProjectionView { conclusion, scan: record_scan(), formula, bindings }
}

/// The record as what a formula reads from.
pub open spec fn reads_record() -> (Seq<char>, TermView) {
    ("of"@, TermView::Variable("record"@))
}

/// A field bound to the variable of the same name.
pub open spec fn binds(field: Seq<char>) -> (Seq<char>, TermView) {
    (field, TermView::Variable(field))
}

/// The rule that is built in for the concept: one for each of the two
/// concepts that are derived from the records of revisions.
pub open spec fn builtin_rule(
    concept: Seq<char>,
    revision: Seq<char>,
    parent: Seq<char>,
) -> Option<ProjectionView> {
    if concept == revision {
        Some(
            projection(
                revision,
                Formula::Revision,
                seq![
                    reads_record(),
                    binds("this"@),
                    binds("lineage"@),
                    binds("issuer"@),
                    binds("authority"@),
                    binds("edition"@),
                ],
            ),
        )
    } else if concept == parent {
        Some(
            projection(
                parent,
                Formula::RevisionParent,
                seq![reads_record(), binds("this"@), binds("parent"@)],
            ),
        )
    } else {
        None
    }
}

fn bind(field: &str, variable: &str) -> (result: Binding)
    ensures
        result@ == (field@, TermView::Variable(variable@)),
{
    Binding { field: field.to_owned(), term: Term::Variable(variable.to_owned()) }
}

fn projection_rule(
    conclusion: &Entity,
    formula: Formula,
    bindings: Vec<Binding>,
) -> (result: Projection)
    ensures
        result@ == projection(conclusion@, formula, views(bindings@)),
{
    let scan = Scan {
        the: Term::Constant(Value::Symbol(Attribute::new("dialog.db/revision"))),
        of: Term::Variable("this".to_owned()),
        is: Term::Record("record".to_owned()),
        cause: Term::Blank,
        cardinality: Some(Cardinality::One),
    };
    Projection { conclusion: conclusion.copy(), scan, formula, bindings }
}

/// The rule that is built in for the concept, where `revision` and `parent`
/// are the concepts that are derived from the records of revisions.
pub fn builtin(concept: &Entity, revision: &Entity, parent: &Entity) -> (result: Option<Projection>)
    ensures
        crate::plain::opt_view(result) == builtin_rule(concept@, revision@, parent@),
{
    let mut bindings: Vec<Binding> = Vec::new();
    bindings.push(bind("of", "record"));
    bindings.push(bind("this", "this"));
    if concept.same(revision) {
        bindings.push(bind("lineage", "lineage"));
        bindings.push(bind("issuer", "issuer"));
        bindings.push(bind("authority", "authority"));
        bindings.push(bind("edition", "edition"));
        assert(views(bindings@) =~= seq![
            reads_record(),
            binds("this"@),
            binds("lineage"@),
            binds("issuer"@),
            binds("authority"@),
            binds("edition"@),
        ]);
        return Some(projection_rule(revision, Formula::Revision, bindings));
    }
    if concept.same(parent) {
        bindings.push(bind("parent", "parent"));
        assert(views(bindings@) =~= seq![reads_record(), binds("this"@), binds("parent"@)]);
        return Some(projection_rule(parent, Formula::RevisionParent, bindings));
    }
    None
}

/// The rules of several layers, one after another.
pub open spec fn concat<R>(layers: Seq<Vec<R>>) -> Seq<R>
    decreases layers.len(),
{
    if layers.len() == 0 {
        Seq::empty()
    } else {
        concat(layers.drop_last()) + layers.last()@
    }
}

/// Joins the rules of the layers: what is built in, each branch in its turn,
/// and then the pending changes.
pub fn layered_rules<R>(
    built_in: Option<R>,
    durable: Vec<Vec<R>>,
    transient: Vec<R>,
) -> (result: Vec<R>)
    ensures
        result@ == (match built_in {
            Some(rule) => seq![rule],
            None => Seq::empty(),
        }) + concat(durable@) + transient@,
{
    let ghost all = durable@;
    let mut rest = reversed(durable);
    let mut result: Vec<R> = Vec::new();
    if let Some(rule) = built_in {
        result.push(rule);
    }
    let ghost first = result@;
    assert(all.take(0) =~= Seq::empty());
    assert(first + concat(all.take(0)) =~= first);
    while rest.len() > 0
        invariant
            rest@.len() <= all.len(),
            rest@ == all.skip(all.len() - rest@.len()).reverse(),
            result@ == first + concat(all.take(all.len() - rest@.len())),
        decreases rest@.len(),
    {
        let ghost k = all.len() - rest@.len();
        if let Some(layer) = rest.pop() {
            assert(layer == all[k]);
            assert(all.take(k + 1).drop_last() =~= all.take(k));
            assert(rest@ =~= all.skip(k + 1).reverse());
            let mut layer = layer;
            assert(first + concat(all.take(k)) + layer@ =~= first + (concat(all.take(k))
                + layer@));
            result.append(&mut layer);
        }
    }
    assert(all.take(all.len() as int) =~= all);
    let mut transient = transient;
    result.append(&mut transient);
    result
}

/// The rules of a concept: the one that its own description makes, and those
/// that were found to conclude it.
#[derive(Debug, PartialEq, Eq)]
pub struct ConceptRules<R> {
    /// The rule that the description makes.
    pub implicit: R,
    /// The rules that were found.
    pub installed: Vec<R>,
}

/// Puts the rules that were found beside the one that the description of the
/// concept makes.
pub fn assemble<R>(implicit: R, rules: Vec<R>) -> (result: ConceptRules<R>)
    ensures
        result.implicit == implicit,
        result.installed@ == rules@,
{
    ConceptRules { implicit, installed: rules }
}

/// How the rules of the branches cannot be read, if they cannot: as the first
/// branch fails.
pub open spec fn first_unread<R>(
    durable: Seq<Result<Vec<R>, EvaluationError>>,
) -> Option<EvaluationError>
    decreases durable.len(),
{
    if durable.len() == 0 {
        None
    } else {
        match durable[0] {
            Err(error) => Some(error),
            Ok(_) => first_unread(durable.drop_first()),
        }
    }
}

/// The rules that were read of each branch.
pub open spec fn rules_read<R>(durable: Seq<Result<Vec<R>, EvaluationError>>) -> Seq<Vec<R>> {
    Seq::new(durable.len(), |i: int| durable[i]->Ok_0)
}

/// Resolves the rules of a concept, where `durable` is what came of reading
/// the rules of each branch, and `compiled` of compiling the sources that the
/// pending changes state. Where the rules of a branch cannot be read, there is
/// no result but that failure.
pub fn resolve_rules<R>(
    implicit: R,
    built_in: Option<R>,
    durable: Vec<Result<Vec<R>, EvaluationError>>,
    compiled: Vec<Vec<Option<R>>>,
) -> (result: Result<ConceptRules<R>, EvaluationError>)
    ensures
        match first_unread(durable@) {
            Some(error) => result == Err::<ConceptRules<R>, EvaluationError>(error),
            None => result matches Ok(rules) && rules.implicit == implicit && rules.installed@ == (
            match built_in {
                Some(rule) => seq![rule],
                None => Seq::empty(),
            }) + concat(rules_read(durable@)) + all_compiled(compiled@),
        },
{
    let ghost all = durable@;
    let mut rest = reversed(durable);
    let mut layers: Vec<Vec<R>> = Vec::new();
    assert(all.skip(0) =~= all);
    assert(layers@ =~= rules_read(all).take(0));
    while rest.len() > 0
        invariant
            all == durable@,
            rest@.len() <= all.len(),
            rest@ == all.skip(all.len() - rest@.len()).reverse(),
            layers@ == rules_read(all).take(all.len() - rest@.len()),
            first_unread(all) == first_unread(all.skip(all.len() - rest@.len())),
        decreases rest@.len(),
    {
        let ghost k = all.len() - rest@.len();
        let ghost left = all.skip(k);
        if let Some(read) = rest.pop() {
            assert(read == left[0]);
            assert(left.drop_first() =~= all.skip(k + 1));
            assert(rest@ =~= all.skip(k + 1).reverse());
            match read {
                Err(error) => {
                    return Err(error);
                },
                Ok(rules) => {
                    layers.push(rules);
                    assert(layers@ =~= rules_read(all).take(k + 1));
                },
            }
        }
    }
    assert(layers@ =~= rules_read(all));
    Ok(assemble(implicit, layered_rules(built_in, layers, overlay_rules(compiled))))
}

/// Every change that states that a rule concludes the concept brings that
/// rule, and no other change brings one: what changes in a row bring is what
/// the one and then the other brings, and a single change brings its entity
/// just where it asserts or puts the concept as what the entity concludes.
pub proof fn law_rules_are_found_change_by_change(
    a: Seq<PendingView>,
    b: Seq<PendingView>,
    pending: PendingView,
    concept: Seq<char>,
)
    ensures
        concluding(a + b, concept) == concluding(a, concept) + concluding(b, concept),
        concluding(seq![pending], concept) == (if pending.the == "db.rule/conclusion"@ && (
        pending.change == ChangeView::Assert(ValueView::Entity(concept)) || pending.change
            == ChangeView::Replace(ValueView::Entity(concept))) {
            seq![pending.of]
        } else {
            Seq::empty()
        }),
        concluding(Seq::empty(), concept).len() == 0,
    decreases b.len(),
{
    if b.len() == 0 {
        assert(a + b =~= a);
    } else {
        law_rules_are_found_change_by_change(a, b.drop_last(), pending, concept);
        assert((a + b).drop_last() =~= a + b.drop_last());
        assert((a + b).last() == b.last());
    }
    assert(concluding(a + b, concept) =~= concluding(a, concept) + concluding(b, concept));
    let one = seq![pending];
    assert(one.drop_last() =~= Seq::empty());
    assert(one.last() == pending);
    reveal_with_fuel(concluding, 2);
    assert(concluding(one, concept) =~= if concludes(pending, concept) {
        seq![pending.of]
    } else {
        Seq::empty()
    });
}

/// No rule that pending changes state is passed over: wherever among the
/// changes one asserts or puts the concept as what a rule concludes, that rule
/// is found.
pub proof fn law_every_pending_rule_is_found(
    changes: Seq<PendingView>,
    concept: Seq<char>,
    i: int,
)
    requires
        0 <= i < changes.len(),
        changes[i].the == "db.rule/conclusion"@,
        changes[i].change == ChangeView::Assert(ValueView::Entity(concept)) || changes[i].change
            == ChangeView::Replace(ValueView::Entity(concept)),
    ensures
        concluding(changes, concept).contains(changes[i].of),
{
    let before = changes.take(i);
    let after = changes.skip(i + 1);
    let one = seq![changes[i]];
    law_rules_are_found_change_by_change(before, one, changes[i], concept);
    law_rules_are_found_change_by_change(before + one, after, changes[i], concept);
    assert(before + one + after =~= changes);
    let k = concluding(before, concept).len() as int;
    assert(concluding(changes, concept)[k] == changes[i].of);
}

/// The sources of a rule are found in the same way: each change that asserts
/// or puts bytes as the source of the rule brings them, in order, and no other
/// change brings any.
pub proof fn law_sources_are_found_change_by_change(
    a: Seq<PendingView>,
    b: Seq<PendingView>,
    pending: PendingView,
    bytes: Seq<u8>,
    rule: Seq<char>,
)
    ensures
        sources_of(a + b, rule) == sources_of(a, rule) + sources_of(b, rule),
        pending.of == rule && pending.the == "db.rule/source"@ && (pending.change
            == ChangeView::Assert(ValueView::Bytes(bytes)) || pending.change
            == ChangeView::Replace(ValueView::Bytes(bytes))) ==> sources_of(seq![pending], rule)
            == seq![bytes],
        sources_of(seq![pending], rule).len() > 0 ==> pending.of == rule && pending.the
            == "db.rule/source"@ && !(pending.change is Retract),
        sources_of(Seq::empty(), rule).len() == 0,
    decreases b.len(),
{
    if b.len() == 0 {
        assert(a + b =~= a);
    } else {
        law_sources_are_found_change_by_change(a, b.drop_last(), pending, bytes, rule);
        assert((a + b).drop_last() =~= a + b.drop_last());
        assert((a + b).last() == b.last());
    }
    assert(sources_of(a + b, rule) =~= sources_of(a, rule) + sources_of(b, rule));
    let one = seq![pending];
    assert(one.drop_last() =~= Seq::empty());
    assert(one.last() == pending);
    reveal_with_fuel(sources_of, 2);
    assert(sources_of(one, rule) =~= match source_of(pending, rule) {
        Some(found) => seq![found],
        None => Seq::empty(),
    });
}

/// What is to be compiled is, for each rule that is found, in order, all the
/// sources that are found of it.
pub proof fn law_all_sources_are_tried(changes: Seq<PendingView>, concept: Seq<char>)
    ensures
        overlay_candidates(changes, concept).len() == concluding(changes, concept).len(),
        forall|i: int|
            0 <= i < concluding(changes, concept).len() ==> #[trigger] overlay_candidates(
                changes,
                concept,
            )[i] == sources_of(changes, concluding(changes, concept)[i]),
{
}

/// Of the sources of a rule the first that compiles counts, and none where
/// none compiles.
pub proof fn law_first_compiled_counts<R>(compiled: Seq<Option<R>>, i: int)
    ensures
        0 <= i < compiled.len() && compiled[i] is Some && (forall|j: int|
            0 <= j < i ==> (#[trigger] compiled[j]) is None) ==> first_compiled(compiled)
            == compiled[i],
        (forall|j: int| 0 <= j < compiled.len() ==> (#[trigger] compiled[j]) is None)
            ==> first_compiled(compiled) is None,
    decreases compiled.len(),
{
    if compiled.len() > 0 {
        let rest = compiled.drop_first();
        law_first_compiled_counts(rest, i - 1);
        if 0 < i < compiled.len() && forall|j: int|
            0 <= j < i ==> (#[trigger] compiled[j]) is None {
            assert(compiled[0] is None);
            assert(rest[i - 1] == compiled[i]);
            assert forall|j: int| 0 <= j < i - 1 implies (#[trigger] rest[j]) is None by {
                assert(rest[j] == compiled[j + 1]);
            }
        }
        if forall|j: int| 0 <= j < compiled.len() ==> (#[trigger] compiled[j]) is None {
            assert(compiled[0] is None);
            assert forall|j: int| 0 <= j < rest.len() implies (#[trigger] rest[j]) is None by {
                assert(rest[j] == compiled[j + 1]);
            }
        }
    }
}

/// Each rule of which a source compiles is there, in order: what rules in a row
/// come to is what the one and then the other comes to.
pub proof fn law_compiled_rules_add_up<R>(
    a: Seq<Vec<Option<R>>>,
    b: Seq<Vec<Option<R>>>,
    candidates: Vec<Option<R>>,
)
    ensures
        all_compiled(a + b) == all_compiled(a) + all_compiled(b),
        all_compiled(seq![candidates]) == (match first_compiled(candidates@) {
            Some(rule) => seq![rule],
            None => Seq::empty(),
        }),
        all_compiled(Seq::<Vec<Option<R>>>::empty()).len() == 0,
    decreases b.len(),
{
    if b.len() == 0 {
        assert(a + b =~= a);
    } else {
        law_compiled_rules_add_up(a, b.drop_last(), candidates);
        assert((a + b).drop_last() =~= a + b.drop_last());
        assert((a + b).last() == b.last());
    }
    assert(all_compiled(a + b) =~= all_compiled(a) + all_compiled(b));
    let one = seq![candidates];
    assert(one.drop_last() =~= Seq::empty());
    assert(one.last() == candidates);
    reveal_with_fuel(all_compiled, 2);
    assert(all_compiled(one) =~= match first_compiled(candidates@) {
        Some(rule) => seq![rule],
        None => Seq::empty(),
    });
}

/// The rules of all layers are there, one layer after another.
pub proof fn law_layers_add_up<R>(a: Seq<Vec<R>>, b: Seq<Vec<R>>, layer: Vec<R>)
    ensures
        concat(a + b) == concat(a) + concat(b),
        concat(seq![layer]) == layer@,
        concat(Seq::<Vec<R>>::empty()).len() == 0,
    decreases b.len(),
{
    if b.len() == 0 {
        assert(a + b =~= a);
    } else {
        law_layers_add_up(a, b.drop_last(), layer);
        assert((a + b).drop_last() =~= a + b.drop_last());
        assert((a + b).last() == b.last());
    }
    assert(concat(a + b) =~= concat(a) + concat(b));
    let one = seq![layer];
    assert(one.drop_last() =~= Seq::empty());
    assert(one.last() == layer);
    reveal_with_fuel(concat, 2);
    assert(concat(one) =~= layer@);
}

/// The failure of the branches is that of the first whose rules could not be
/// read; where all could be read, there is none, and the rules of each are
/// those that were read.
pub proof fn law_first_unread_counts<R>(
    durable: Seq<Result<Vec<R>, EvaluationError>>,
    i: int,
)
    ensures
        0 <= i < durable.len() && durable[i] is Err && (forall|j: int|
            0 <= j < i ==> (#[trigger] durable[j]) is Ok) ==> first_unread(durable) == Some(
            durable[i]->Err_0,
        ),
        (forall|j: int| 0 <= j < durable.len() ==> (#[trigger] durable[j]) is Ok)
            ==> first_unread(durable) is None,
        rules_read(durable).len() == durable.len(),
        0 <= i < durable.len() && durable[i] is Ok ==> rules_read(durable)[i] == durable[i]->Ok_0,
    decreases durable.len(),
{
    if durable.len() > 0 {
        let rest = durable.drop_first();
        law_first_unread_counts(rest, i - 1);
        if 0 < i < durable.len() && forall|j: int| 0 <= j < i ==> (#[trigger] durable[j]) is Ok {
            assert(durable[0] is Ok);
            assert(rest[i - 1] == durable[i]);
            assert forall|j: int| 0 <= j < i - 1 implies (#[trigger] rest[j]) is Ok by {
                assert(rest[j] == durable[j + 1]);
            }
        }
        if forall|j: int| 0 <= j < durable.len() ==> (#[trigger] durable[j]) is Ok {
            assert(durable[0] is Ok);
            assert forall|j: int| 0 <= j < rest.len() implies (#[trigger] rest[j]) is Ok by {
                assert(rest[j] == durable[j + 1]);
            }
        }
    }
}

/// A rule is built in for two concepts and no other. It finds the record on an
/// entity and reads the fields of that same entity from it: of a revision its
/// lineage, issuer, authority and edition, of a parent the parent.
pub proof fn law_built_in_rules_read_records(
    concept: Seq<char>,
    revision: Seq<char>,
    parent: Seq<char>,
)
    ensures
        builtin_rule(concept, revision, parent) is Some <==> concept == revision || concept
            == parent,
        builtin_rule(concept, revision, parent) matches Some(rule) ==> {
            &&& rule.conclusion == concept
            &&& rule.scan.the == TermView::Constant(ValueView::Symbol("dialog.db/revision"@))
            &&& rule.scan.of == TermView::Variable("this"@)
            &&& rule.scan.is == TermView::Record("record"@)
            &&& rule.scan.cause == TermView::Blank
            &&& rule.scan.cardinality == Some(Cardinality::One)
            &&& rule.bindings.len() >= 2
            &&& rule.bindings[0] == ("of"@, TermView::Variable("record"@))
            &&& rule.bindings[1] == ("this"@, TermView::Variable("this"@))
            &&& concept == revision ==> {
                &&& rule.formula == Formula::Revision
                &&& rule.bindings.len() == 6
                &&& rule.bindings[2] == ("lineage"@, TermView::Variable("lineage"@))
                &&& rule.bindings[3] == ("issuer"@, TermView::Variable("issuer"@))
                &&& rule.bindings[4] == ("authority"@, TermView::Variable("authority"@))
                &&& rule.bindings[5] == ("edition"@, TermView::Variable("edition"@))
            }
            &&& concept != revision ==> {
                &&& rule.formula == Formula::RevisionParent
                &&& rule.bindings.len() == 3
                &&& rule.bindings[2] == ("parent"@, TermView::Variable("parent"@))
            }
        },
{
}

} // verus!
