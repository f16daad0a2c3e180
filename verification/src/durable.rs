//! Reading the rules of a branch, by way of what is kept of them.

use crate::artifact::{Artifact, ArtifactView};
use crate::error::{EvaluationError, EvaluationErrorView};
use crate::identity::Entity;
use crate::plain::{copy_all, lemma_views_push, opt_view, views, Plain};
use crate::revision::{Revision, RevisionView};
use crate::rules::{
    conclusion_failure, entities_of, first_bytes, hydrate, rule_entities, source_bytes,
    source_failure, unread, RuleCache, RuleCacheView,
};
use vstd::prelude::*;

verus! {

/// The reading of the rules that conclude a concept on a branch.
pub struct Resolution<R> {
    /// The rules.
    pub entities: Vec<Entity>,
    /// How many of them are done with.
    pub done: usize,
    /// The compiled rules so far.
    pub rules: Vec<R>,
}

/// What a [`Resolution`] holds.
#[verifier::ext_equal]
pub struct ResolutionView<V> {
    pub entities: Seq<Seq<char>>,
    pub done: nat,
    pub rules: Seq<V>,
}

impl<V> ResolutionView<V> {
    /// A reading that has just begun.
    pub open spec fn start(entities: Seq<Seq<char>>) -> ResolutionView<V> {
        ResolutionView { entities, done: 0, rules: Seq::empty() }
    }

    /// Whether all rules are done with.
    pub open spec fn finished(self) -> bool {
        self.done >= self.entities.len()
    }

    /// With the next rule compiled.
    pub open spec fn taken(self, body: V) -> ResolutionView<V> {
        ResolutionView { done: self.done + 1, rules: self.rules.push(body), ..self }
    }

    /// With the next rule left out.
    pub open spec fn skipped(self) -> ResolutionView<V> {
        ResolutionView { done: self.done + 1, ..self }
    }

    /// With all compiled rules taken that are kept and come next.
    pub open spec fn with_kept(self, bodies: Map<Seq<char>, V>) -> ResolutionView<V>
        decreases self.entities.len() - self.done,
    {
        if !self.finished() && bodies.contains_key(self.entities[self.done as int]) {
            self.taken(bodies[self.entities[self.done as int]]).with_kept(bodies)
        } else {
            self
        }
    }
}

impl<R: View> View for Resolution<R> {
    type V = ResolutionView<R::V>;

    open spec fn view(&self) -> ResolutionView<R::V> {
        ResolutionView {
            entities: views(self.entities@),
            done: self.done as nat,
            rules: views(self.rules@),
        }
    }
}

impl<R: Plain> Resolution<R> {
    /// Whether no more rules are done with than there are.
    pub open spec fn well_formed(&self) -> bool {
        self.done <= self.entities@.len()
    }

    fn start(entities: Vec<Entity>) -> (result: Resolution<R>)
        ensures
            result.well_formed(),
            result@ == ResolutionView::<R::V>::start(views(entities@)),
    {
        let result = Resolution { entities, done: 0, rules: Vec::new() };
        assert(result@.rules =~= Seq::<R::V>::empty());
        result
    }

    /// Begins with the rules known to conclude the concept at the head. Where
    /// they are not known, the branch is to be searched for them.
    pub fn begin(
        cache: &RuleCache<R>,
        concept: &Entity,
        head: &Option<Revision>,
    ) -> (result: Option<Resolution<R>>)
        ensures
            match cache@.discovered(concept@, opt_view(*head)) {
                Some(entities) => result matches Some(resolution) && resolution.well_formed()
                    && resolution@ == ResolutionView::<R::V>::start(entities),
                None => result is None,
            },
    {
        match head {
            Some(head) => match cache.discovered(concept, head) {
                Some(entities) => Some(Resolution::start(entities)),
                None => None,
            },
            None => None,
        }
    }

    /// Begins with the rules that a search of the branch found. They are kept
    /// for the head, if there is one.
    pub fn scanned(
        cache: &mut RuleCache<R>,
        concept: &Entity,
        head: &Option<Revision>,
        claims: &Vec<Artifact>,
    ) -> (result: Resolution<R>)
        ensures
            result.well_formed(),
            result@ == ResolutionView::<R::V>::start(entities_of(views(claims@))),
            final(cache)@ == (match *head {
                Some(head) => old(cache)@.with_discovery(
                    concept@,
                    head@,
                    entities_of(views(claims@)),
                ),
                None => old(cache)@,
            }),
    {
        let entities = rule_entities(claims);
        match head {
            Some(head) => {
                cache.record_discovery(concept.copy(), head.copy(), copy_all(&entities));
            },
            None => {},
        }
        Resolution::start(entities)
    }

    /// Takes the compiled rules that are kept, up to the first that is not.
    /// The source of that one is to be looked up; where there is none, the
    /// reading is done.
    pub fn proceed(&mut self, cache: &RuleCache<R>) -> (result: Option<Entity>)
        requires
            old(self).well_formed(),
        ensures
            final(self).well_formed(),
            final(self)@ == old(self)@.with_kept(cache@.bodies),
            match result {
                Some(rule) => !final(self)@.finished() && rule@
                    == final(self)@.entities[final(self)@.done as int],
                None => final(self)@.finished(),
            },
    {
        let ghost goal = self@.with_kept(cache@.bodies);
        while self.done < self.entities.len()
            invariant
                self.well_formed(),
                goal == old(self)@.with_kept(cache@.bodies),
                self@.with_kept(cache@.bodies) == goal,
            decreases self.entities@.len() - self.done,
        {
            assert(self@.entities[self.done as int] == self.entities@[self.done as int]@);
            match cache.body(&self.entities[self.done]) {
                Some(body) => {
                    let ghost before = self@;
                    proof {
                        lemma_views_push(self.rules@, body);
                    }
                    self.rules.push(body);
                    self.done += 1;
                    assert(self@ =~= before.taken(body@));
                },
                None => {
                    return Some(self.entities[self.done].copy());
                },
            }
        }
        None
    }

    /// Goes on with the facts on the source of the next rule. The source is to
    /// be compiled; a rule without one is left out.
    pub fn fetched(&mut self, claims: &Vec<Artifact>) -> (result: Option<Vec<u8>>)
        requires
            old(self).well_formed(),
            !old(self)@.finished(),
        ensures
            final(self).well_formed(),
            opt_view(result) == first_bytes(views(claims@)),
            final(self)@ == (if result is None {
                old(self)@.skipped()
            } else {
                old(self)@
            }),
    {
        let source = source_bytes(claims);
        if source.is_none() {
            assert(self.done < self.entities.len());
            self.done += 1;
        }
        source
    }

    /// Goes on with the next rule compiled. It is kept.
    pub fn hydrated(&mut self, cache: &mut RuleCache<R>, body: R)
        requires
            old(self).well_formed(),
            !old(self)@.finished(),
        ensures
            final(self).well_formed(),
            final(self)@ == old(self)@.taken(body@),
            final(cache)@ == old(cache)@.with_body(
                old(self)@.entities[old(self)@.done as int],
                body@,
            ),
    {
        assert(self@.entities[self.done as int] == self.entities@[self.done as int]@);
        cache.record_body(self.entities[self.done].copy(), body.copy());
        proof {
            lemma_views_push(self.rules@, body);
        }
        self.rules.push(body);
        assert(self.done < self.entities.len());
        self.done += 1;
    }
}

/// What the outside world answers of one rule.
pub struct Reply<R> {
    /// The facts on its source, or why they could not be read.
    pub claims: Result<Vec<Artifact>, String>,
    /// The compiled source, or why it does not compile.
    pub body: Result<R, String>,
}

/// What a reading comes to: the compiled rules, or else the first failure,
/// and what is kept then.
#[verifier::ext_equal]
pub struct Gathered<V> {
    pub rules: Seq<V>,
    pub error: Option<EvaluationErrorView>,
    pub cache: RuleCacheView<V>,
}

/// The reading of the first `n` rules.
pub open spec fn gather<R: View>(
    entities: Seq<Seq<char>>,
    cache: RuleCacheView<R::V>,
    replies: Seq<Reply<R>>,
    n: nat,
) -> Gathered<R::V>
    decreases n,
{
    if n == 0 {
        Gathered { rules: Seq::empty(), error: None, cache }
    } else {
        let before = gather(entities, cache, replies, (n - 1) as nat);
        let rule = entities[n - 1];
        let reply = replies[n - 1];
        if before.error is Some {
            before
        } else if before.cache.bodies.contains_key(rule) {
            Gathered { rules: before.rules.push(before.cache.bodies[rule]), ..before }
        } else {
            match reply.claims {
                Err(reason) => Gathered {
                    error: Some(unread("rule source lookup: "@, reason@)),
                    ..before
                },
                Ok(claims) => if first_bytes(views(claims@)) is None {
                    before
                } else {
                    match reply.body {
                        Err(reason) => Gathered {
                            error: Some(unread("rule hydrate: "@, reason@)),
                            ..before
                        },
                        Ok(body) => Gathered {
                            rules: before.rules.push(body@),
                            cache: before.cache.with_body(rule, body@),
                            ..before
                        },
                    }
                },
            }
        }
    }
}

/// The rules to read: those known, or else those found.
pub open spec fn found<V>(
    cache: RuleCacheView<V>,
    concept: Seq<char>,
    head: Option<RevisionView>,
    claims: Seq<ArtifactView>,
) -> Seq<Seq<char>> {
    match cache.discovered(concept, head) {
        Some(entities) => entities,
        None => entities_of(claims),
    }
}

/// What is kept once it is known which rules to read.
pub open spec fn after_search<V>(
    cache: RuleCacheView<V>,
    concept: Seq<char>,
    head: Option<RevisionView>,
    claims: Seq<ArtifactView>,
) -> RuleCacheView<V> {
    match (cache.discovered(concept, head), head) {
        (None, Some(head)) => cache.with_discovery(concept, head, entities_of(claims)),
        _ => cache,
    }
}

/// The reading of the rules that conclude a concept at a head, where `claims`
/// is what a search of the branch finds, if it is searched.
pub open spec fn reading<R: View>(
    cache: RuleCacheView<R::V>,
    concept: Seq<char>,
    head: Option<RevisionView>,
    claims: Seq<ArtifactView>,
    replies: Seq<Reply<R>>,
) -> Gathered<R::V> {
    let entities = found(cache, concept, head, claims);
    gather(entities, after_search(cache, concept, head, claims), replies, entities.len())
}

/// Whether there is one reply for each rule that is to be read.
pub open spec fn answered<R: View>(
    cache: RuleCacheView<R::V>,
    concept: Seq<char>,
    head: Option<RevisionView>,
    search: Result<Vec<Artifact>, String>,
    replies: Seq<Reply<R>>,
) -> bool {
    match (cache.discovered(concept, head), search) {
        (Some(entities), _) => replies.len() == entities.len(),
        (None, Ok(claims)) => replies.len() == claims@.len(),
        (None, Err(_)) => true,
    }
}

/// What the reading of the rules that conclude a concept at a head comes to,
/// where `search` is what comes of searching the branch, if it is searched.
pub open spec fn outcome<R: View>(
    cache: RuleCacheView<R::V>,
    concept: Seq<char>,
    head: Option<RevisionView>,
    search: Result<Vec<Artifact>, String>,
    replies: Seq<Reply<R>>,
) -> Gathered<R::V> {
    match (cache.discovered(concept, head), search) {
        (Some(_), _) => reading(cache, concept, head, Seq::empty(), replies),
        (None, Ok(claims)) => reading(cache, concept, head, views(claims@), replies),
        (None, Err(reason)) => Gathered {
            rules: Seq::empty(),
            error: Some(unread("rule conclusion lookup: "@, reason@)),
            cache,
        },
    }
}

/// Reading on takes what the reading as a whole takes: the compiled rules
/// that are kept are those of the next steps.
proof fn lemma_with_kept<R: View>(
    resolution: ResolutionView<R::V>,
    cache: RuleCacheView<R::V>,
    replies: Seq<Reply<R>>,
)
    requires
        resolution.done <= resolution.entities.len(),
        gather(resolution.entities, cache, replies, resolution.done).error is None,
        gather(resolution.entities, cache, replies, resolution.done).rules == resolution.rules,
    ensures
        ({
            let all = gather(resolution.entities, cache, replies, resolution.done);
            let after = resolution.with_kept(all.cache.bodies);
            let reached = gather(resolution.entities, cache, replies, after.done);
            &&& after.entities == resolution.entities
            &&& resolution.done <= after.done <= after.entities.len()
            &&& reached.error is None
            &&& reached.rules == after.rules
            &&& reached.cache == all.cache
            &&& !after.finished() ==> !all.cache.bodies.contains_key(
                after.entities[after.done as int],
            )
        }),
    decreases resolution.entities.len() - resolution.done,
{
    let all = gather(resolution.entities, cache, replies, resolution.done);
    let bodies = all.cache.bodies;
    if !resolution.finished() && bodies.contains_key(
        resolution.entities[resolution.done as int],
    ) {
        let next = resolution.taken(bodies[resolution.entities[resolution.done as int]]);
        lemma_with_kept(next, cache, replies);
    }
}

/// The reading of the rules that conclude a concept on a branch as a whole,
/// for given replies: one search of the branch, which is not asked for where
/// the rules are known, and one reply for each rule, which is not asked for
/// where the compiled rule is kept. The first failure ends the reading.
pub fn durable_rules<R: Plain>(
    cache: &mut RuleCache<R>,
    concept: &Entity,
    head: &Option<Revision>,
    search: &Result<Vec<Artifact>, String>,
    replies: &Vec<Reply<R>>,
) -> (result: Result<Vec<R>, EvaluationError>)
    requires
        answered(old(cache)@, concept@, opt_view(*head), *search, replies@),
    ensures
        ({
            let all = outcome(old(cache)@, concept@, opt_view(*head), *search, replies@);
            &&& final(cache)@ == all.cache
            &&& match all.error {
                Some(error) => result matches Err(failure) && failure@ == error,
                None => result matches Ok(rules) && views(rules@) == all.rules,
            }
        }),
{
    let mut resolution = match Resolution::begin(cache, concept, head) {
        Some(resolution) => resolution,
        None => match search {
            Ok(claims) => {
                let resolution = Resolution::scanned(cache, concept, head, claims);
                resolution
            },
            Err(reason) => {
                return Err(conclusion_failure(reason.as_str()));
            },
        },
    };
    let ghost known = old(cache)@.discovered(concept@, opt_view(*head));
    let ghost claims = if known is None {
        views(search->Ok_0@)
    } else {
        Seq::<ArtifactView>::empty()
    };
    let ghost start = cache@;
    let ghost entities = resolution@.entities;
    loop
        invariant
            known == old(cache)@.discovered(concept@, opt_view(*head)),
            known is None ==> search is Ok,
            claims == (if known is None {
                views(search->Ok_0@)
            } else {
                Seq::<ArtifactView>::empty()
            }),
            entities == found(old(cache)@, concept@, opt_view(*head), claims),
            start == after_search(old(cache)@, concept@, opt_view(*head), claims),
            resolution.well_formed(),
            resolution@.entities == entities,
            replies@.len() == entities.len(),
            gather(entities, start, replies@, resolution@.done).error is None,
            gather(entities, start, replies@, resolution@.done).rules == resolution@.rules,
            gather(entities, start, replies@, resolution@.done).cache == cache@,
        ensures
            resolution@.finished(),
        decreases entities.len() - resolution@.done,
    {
        proof {
            lemma_with_kept(resolution@, start, replies@);
        }
        let rule = match resolution.proceed(cache) {
            Some(rule) => rule,
            None => {
                break;
            },
        };
        let i: usize = resolution.done;
        match &replies[i].claims {
            Err(reason) => {
                proof {
                    lemma_error_stays(entities, start, replies@, (i + 1) as nat, entities.len());
                }
                return Err(source_failure(reason.as_str()));
            },
            Ok(claims) => {
                if resolution.fetched(claims).is_none() {
                    continue;
                }
                match hydrate(&replies[i].body) {
                    Err(error) => {
                        proof {
                            lemma_error_stays(
                                entities,
                                start,
                                replies@,
                                (i + 1) as nat,
                                entities.len(),
                            );
                        }
                        return Err(error);
                    },
                    Ok(body) => {
                        resolution.hydrated(cache, body);
                    },
                }
            },
        }
    }
    Ok(resolution.rules)
}

/// A failed reading stays as it is.
proof fn lemma_error_stays<R: View>(
    entities: Seq<Seq<char>>,
    cache: RuleCacheView<R::V>,
    replies: Seq<Reply<R>>,
    n: nat,
    m: nat,
)
    requires
        n <= m,
        gather(entities, cache, replies, n).error is Some,
    ensures
        gather(entities, cache, replies, m) == gather(entities, cache, replies, n),
    decreases m,
{
    if n < m {
        lemma_error_stays(entities, cache, replies, n, (m - 1) as nat);
    }
}

/// Whether the reply says that a rule has no source.
pub open spec fn sourceless<R: View>(reply: Reply<R>) -> bool {
    reply.claims matches Ok(claims) && first_bytes(views(claims@)) is None
}

/// Whether the reply says that a rule has a source, and what it compiled to.
pub open spec fn compiled_to<R: View>(reply: Reply<R>, body: R::V) -> bool {
    !sourceless(reply) && (reply.body matches Ok(compiled) && compiled@ == body)
}

/// Whether the replies of two readings are of one tree, as far as rules without
/// a source go: a rule that one reply finds without is found without by all.
pub open spec fn of_one_tree<R: View>(
    entities: Seq<Seq<char>>,
    replies: Seq<Reply<R>>,
    again: Seq<Reply<R>>,
) -> bool {
    forall|i: int, j: int|
        0 <= i < entities.len() && 0 <= j < entities.len() && entities[i] == entities[j]
            && sourceless(#[trigger] replies[i]) ==> sourceless(replies[j]) && sourceless(
            #[trigger] again[j],
        )
}

/// What is kept of compiled rules stays as a reading goes on; what is known of
/// concepts does not change.
pub proof fn lemma_kept_stays<R: View>(
    entities: Seq<Seq<char>>,
    cache: RuleCacheView<R::V>,
    replies: Seq<Reply<R>>,
    n: nat,
    m: nat,
    rule: Seq<char>,
)
    requires
        n <= m,
    ensures
        gather(entities, cache, replies, m).cache.discovery == cache.discovery,
        gather(entities, cache, replies, n).cache.bodies.contains_key(rule) ==> gather(
            entities,
            cache,
            replies,
            m,
        ).cache.bodies.contains_key(rule) && gather(
            entities,
            cache,
            replies,
            m,
        ).cache.bodies[rule] == gather(entities, cache, replies, n).cache.bodies[rule],
    decreases m,
{
    if m == 0 {
    } else if n < m {
        lemma_kept_stays(entities, cache, replies, n, (m - 1) as nat, rule);
    } else {
        lemma_kept_stays(entities, cache, replies, (n - 1) as nat, (m - 1) as nat, rule);
    }
}

/// A compiled rule that a reading came to keep is what a source of the rule
/// compiled to.
pub proof fn lemma_kept_was_compiled<R: View>(
    entities: Seq<Seq<char>>,
    cache: RuleCacheView<R::V>,
    replies: Seq<Reply<R>>,
    n: nat,
    m: nat,
    rule: Seq<char>,
)
    requires
        n <= m,
        !gather(entities, cache, replies, n).cache.bodies.contains_key(rule),
        gather(entities, cache, replies, m).cache.bodies.contains_key(rule),
    ensures
        exists|j: int|
            n <= j < m && entities[j] == rule && #[trigger] compiled_to(
                replies[j],
                gather(entities, cache, replies, m).cache.bodies[rule],
            ),
    decreases m,
{
    let before = gather(entities, cache, replies, (m - 1) as nat);
    let body = gather(entities, cache, replies, m).cache.bodies[rule];
    if before.cache.bodies.contains_key(rule) {
        lemma_kept_was_compiled(entities, cache, replies, n, (m - 1) as nat, rule);
        let j = choose|j: int|
            n <= j < m - 1 && entities[j] == rule && #[trigger] compiled_to(
                replies[j],
                before.cache.bodies[rule],
            );
        assert(compiled_to(replies[j], body));
    } else {
        assert(entities[m - 1] == rule && compiled_to(replies[m - 1], body));
    }
}

/// Reading once more with what the first reading kept takes the same rules.
proof fn lemma_read_again<R: View>(
    entities: Seq<Seq<char>>,
    cache: RuleCacheView<R::V>,
    replies: Seq<Reply<R>>,
    again: Seq<Reply<R>>,
    n: nat,
)
    requires
        n <= entities.len(),
        gather(entities, cache, replies, entities.len()).error is None,
        of_one_tree(entities, replies, again),
    ensures
        ({
            let kept = gather(entities, cache, replies, entities.len()).cache;
            let first = gather(entities, cache, replies, n);
            let second = gather(entities, kept, again, n);
            &&& first.error is None
            &&& second.error is None
            &&& second.rules == first.rules
            &&& second.cache == kept
        }),
    decreases n,
{
    let all = entities.len();
    let kept = gather(entities, cache, replies, all).cache;
    if gather(entities, cache, replies, n).error is Some {
        lemma_error_stays(entities, cache, replies, n, all);
    }
    if n > 0 {
        let m = (n - 1) as nat;
        lemma_read_again(entities, cache, replies, again, m);
        let rule = entities[m as int];
        let before = gather(entities, cache, replies, m);
        lemma_kept_stays(entities, cache, replies, m, all, rule);
        lemma_kept_stays(entities, cache, replies, n, all, rule);
        if !before.cache.bodies.contains_key(rule) && sourceless(replies[m as int]) {
            if kept.bodies.contains_key(rule) {
                lemma_kept_was_compiled(entities, cache, replies, m, all, rule);
                let j = choose|j: int|
                    m <= j < all && entities[j] == rule && #[trigger] compiled_to(
                        replies[j],
                        kept.bodies[rule],
                    );
                assert(sourceless(again[j]));
            }
            assert(sourceless(again[m as int]));
        }
    }
}

/// As long as the head stays, so do the rules: a second reading at the same
/// head does not search the branch, and gives the rules that the first one
/// gave, whatever a search would find by then. Once the head has moved, the
/// branch is searched and what is found is read.
pub proof fn law_rules_stay_with_the_head<R: View>(
    cache: RuleCacheView<R::V>,
    concept: Seq<char>,
    head: RevisionView,
    claims: Seq<ArtifactView>,
    replies: Seq<Reply<R>>,
    later: Seq<ArtifactView>,
    again: Seq<Reply<R>>,
    moved: RevisionView,
)
    requires
        reading(cache, concept, Some(head), claims, replies).error is None,
        of_one_tree(found(cache, concept, Some(head), claims), replies, again),
        moved != head,
    ensures
        ({
            let first = reading(cache, concept, Some(head), claims, replies);
            let second = reading(first.cache, concept, Some(head), later, again);
            &&& first.cache.discovered(concept, Some(head)) == Some(
                found(cache, concept, Some(head), claims),
            )
            &&& second.error is None
            &&& second.rules == first.rules
            &&& second.cache == first.cache
            &&& first.cache.discovered(concept, Some(moved)) is None
            &&& found(first.cache, concept, Some(moved), later) == entities_of(later)
        }),
{
    let entities = found(cache, concept, Some(head), claims);
    let start = after_search(cache, concept, Some(head), claims);
    lemma_kept_stays(entities, start, replies, 0, entities.len(), concept);
    lemma_read_again(entities, start, replies, again, entities.len());
}

/// Rules known of another head are not used: the branch is searched anew.
pub proof fn law_moved_head_is_searched_anew<V>(
    cache: RuleCacheView<V>,
    concept: Seq<char>,
    head: RevisionView,
    other: RevisionView,
    entities: Seq<Seq<char>>,
)
    requires
        head != other,
    ensures
        cache.with_discovery(concept, head, entities).discovered(concept, Some(head)) == Some(
            entities,
        ),
        cache.with_discovery(concept, head, entities).discovered(concept, Some(other)) is None,
{
}

/// What is known of one concept says nothing of another.
pub proof fn law_concepts_are_kept_apart<V>(
    cache: RuleCacheView<V>,
    concept: Seq<char>,
    other: Seq<char>,
    head: RevisionView,
    at: Option<RevisionView>,
    entities: Seq<Seq<char>>,
)
    requires
        concept != other,
    ensures
        cache.with_discovery(concept, head, entities).discovered(other, at) == cache.discovered(
            other,
            at,
        ),
{
}

/// A compiled rule outlasts the head: finding out which rules conclude a
/// concept at another head leaves it kept.
pub proof fn law_compiled_rules_outlast_heads<V>(
    cache: RuleCacheView<V>,
    rule: Seq<char>,
    body: V,
    concept: Seq<char>,
    head: RevisionView,
    entities: Seq<Seq<char>>,
)
    ensures
        cache.with_body(rule, body).with_discovery(concept, head, entities).bodies.contains_key(
            rule,
        ),
        cache.with_body(rule, body).with_discovery(concept, head, entities).bodies[rule] == body,
{
}

/// A branch without a head has nothing kept of its rules.
pub proof fn law_empty_branch_is_always_searched<V>(
    cache: RuleCacheView<V>,
    concept: Seq<char>,
    claims: Seq<ArtifactView>,
)
    ensures
        cache.discovered(concept, None) is None,
        after_search(cache, concept, None, claims) == cache,
{
}

/// What is kept of a rule while a reading goes on is what was kept of it
/// before, as long as the rule has not come up.
proof fn lemma_kept_until_its_turn<R: View>(
    entities: Seq<Seq<char>>,
    cache: RuleCacheView<R::V>,
    replies: Seq<Reply<R>>,
    n: nat,
    rule: Seq<char>,
)
    requires
        forall|j: int| 0 <= j < n ==> #[trigger] entities[j] != rule,
    ensures
        gather(entities, cache, replies, n).cache.bodies.contains_key(rule)
            <==> cache.bodies.contains_key(rule),
        cache.bodies.contains_key(rule) ==> gather(entities, cache, replies, n).cache.bodies[rule]
            == cache.bodies[rule],
{
    lemma_kept_stays(entities, cache, replies, 0, n, rule);
    if gather(entities, cache, replies, n).cache.bodies.contains_key(rule)
        && !cache.bodies.contains_key(rule) {
        lemma_kept_was_compiled(entities, cache, replies, 0, n, rule);
        let j = choose|j: int|
            0 <= j < n && entities[j] == rule && #[trigger] compiled_to(
                replies[j],
                gather(entities, cache, replies, n).cache.bodies[rule],
            );
        assert(entities[j] != rule);
    }
}

/// Rules are read in their turn, each once. One that is kept is taken as it is
/// kept and nothing is asked of it. Of any other the source is looked up: one
/// without a source is left out, one with a source is compiled, taken and kept.
/// The reading fails where a lookup or a compilation does, and tells which.
pub proof fn law_rules_are_read_in_their_turn<R: View>(
    entities: Seq<Seq<char>>,
    cache: RuleCacheView<R::V>,
    replies: Seq<Reply<R>>,
    i: int,
)
    requires
        0 <= i < entities.len(),
        forall|j: int| 0 <= j < i ==> #[trigger] entities[j] != entities[i],
        gather(entities, cache, replies, i as nat).error is None,
    ensures
        ({
            let before = gather(entities, cache, replies, i as nat);
            let after = gather(entities, cache, replies, (i + 1) as nat);
            let rule = entities[i];
            &&& cache.bodies.contains_key(rule) ==> {
                &&& after.error is None
                &&& after.rules == before.rules.push(cache.bodies[rule])
                &&& after.cache == before.cache
            }
            &&& !cache.bodies.contains_key(rule) ==> match replies[i].claims {
                Err(reason) => {
                    &&& after.error == Some(
                        EvaluationErrorView::Store("rule source lookup: "@ + reason@),
                    )
                    &&& after.cache == before.cache
                },
                Ok(claims) => if forall|k: int|
                    0 <= k < claims@.len() ==> !((#[trigger] claims@[k])@.is is Bytes) {
                    after == before
                } else {
                    match replies[i].body {
                        Err(reason) => {
                            &&& after.error == Some(
                                EvaluationErrorView::Store("rule hydrate: "@ + reason@),
                            )
                            &&& after.cache == before.cache
                        },
                        Ok(body) => {
                            &&& after.error is None
                            &&& after.rules == before.rules.push(body@)
                            &&& after.cache.bodies == before.cache.bodies.insert(rule, body@)
                            &&& after.cache.discovery == before.cache.discovery
                        },
                    }
                },
            }
        }),
        gather(entities, cache, replies, 0).rules.len() == 0,
        gather(entities, cache, replies, 0).error is None,
        gather(entities, cache, replies, 0).cache == cache,
{
    lemma_kept_until_its_turn(entities, cache, replies, i as nat, entities[i]);
    if let Ok(claims) = replies[i].claims {
        let all = views(claims@);
        if forall|k: int| 0 <= k < claims@.len() ==> !((#[trigger] claims@[k])@.is is Bytes) {
            assert forall|k: int| 0 <= k < all.len() implies !(
            (#[trigger] all[k]).is is Bytes) by {
                assert(all[k] == claims@[k]@);
            }
            crate::rules::law_first_bytes_count(all, 0);
        } else {
            let k = choose|k: int|
                0 <= k < claims@.len() && (#[trigger] claims@[k])@.is is Bytes;
            assert(all[k] == claims@[k]@);
            lemma_bytes_are_found(all, k);
        }
    }
}

/// Where a fact holds bytes, there is a source.
proof fn lemma_bytes_are_found(claims: Seq<ArtifactView>, k: int)
    requires
        0 <= k < claims.len(),
        claims[k].is is Bytes,
    ensures
        first_bytes(claims) is Some,
    decreases claims.len(),
{
    if k > 0 && !(claims[0].is is Bytes) {
        assert(claims.drop_first()[k - 1] == claims[k]);
        lemma_bytes_are_found(claims.drop_first(), k - 1);
    }
}

/// A reading that has failed is over: nothing behind the failure is read.
pub proof fn law_failed_readings_are_over<R: View>(
    entities: Seq<Seq<char>>,
    cache: RuleCacheView<R::V>,
    replies: Seq<Reply<R>>,
    n: nat,
    m: nat,
)
    requires
        n <= m,
        gather(entities, cache, replies, n).error is Some,
    ensures
        gather(entities, cache, replies, m) == gather(entities, cache, replies, n),
{
    lemma_error_stays(entities, cache, replies, n, m);
}

/// A reading that does not fail leaves no rule out that is kept or has a
/// source: each is among the rules that are read, and is kept from then on.
pub proof fn law_every_rule_is_read<R: View>(
    entities: Seq<Seq<char>>,
    cache: RuleCacheView<R::V>,
    replies: Seq<Reply<R>>,
    n: nat,
    i: int,
)
    requires
        0 <= i < n <= entities.len(),
        forall|j: int| 0 <= j < i ==> #[trigger] entities[j] != entities[i],
        gather(entities, cache, replies, n).error is None,
    ensures
        ({
            let all = gather(entities, cache, replies, n);
            let rule = entities[i];
            &&& cache.bodies.contains_key(rule) ==> {
                &&& all.rules.contains(cache.bodies[rule])
                &&& all.cache.bodies.contains_key(rule)
                &&& all.cache.bodies[rule] == cache.bodies[rule]
            }
            &&& !cache.bodies.contains_key(rule) && !sourceless(replies[i]) ==> {
                &&& replies[i].claims is Ok
                &&& replies[i].body is Ok
                &&& all.rules.contains(replies[i].body->Ok_0@)
                &&& all.cache.bodies.contains_key(rule)
                &&& all.cache.bodies[rule] == replies[i].body->Ok_0@
            }
        }),
    decreases n,
{
    let rule = entities[i];
    let all = gather(entities, cache, replies, n);
    let m = (n - 1) as nat;
    let before = gather(entities, cache, replies, m);
    assert(before.error is None);
    if i < m {
        law_every_rule_is_read(entities, cache, replies, m, i);
        lemma_kept_stays(entities, cache, replies, m, n, rule);
        assert forall|body: R::V| before.rules.contains(body) implies all.rules.contains(body) by {
            let k = choose|k: int| 0 <= k < before.rules.len() && before.rules[k] == body;
            assert(all.rules[k] == body);
        }
    } else {
        lemma_kept_until_its_turn(entities, cache, replies, m, rule);
        if cache.bodies.contains_key(rule) || !sourceless(replies[i]) {
            assert(all.rules.len() == before.rules.len() + 1);
            assert(all.rules.contains(all.rules[before.rules.len() as int]));
        }
    }
}

/// What is read is one that was kept or one that was compiled, of a rule that
/// is to be read; and no more rules are read than there are.
pub proof fn law_nothing_else_is_read<R: View>(
    entities: Seq<Seq<char>>,
    cache: RuleCacheView<R::V>,
    replies: Seq<Reply<R>>,
    n: nat,
    k: int,
)
    requires
        n <= entities.len(),
        0 <= k < gather(entities, cache, replies, n).rules.len(),
    ensures
        ({
            let body = gather(entities, cache, replies, n).rules[k];
            ||| exists|j: int|
                0 <= j < n && cache.bodies.contains_key(#[trigger] entities[j])
                    && cache.bodies[entities[j]] == body
            ||| exists|j: int| 0 <= j < n && #[trigger] compiled_to(replies[j], body)
        }),
        gather(entities, cache, replies, n).rules.len() <= n,
    decreases n,
{
    if n > 0 {
        let m = (n - 1) as nat;
        let before = gather(entities, cache, replies, m);
        let all = gather(entities, cache, replies, n);
        if before.rules.len() > 0 {
            law_nothing_else_is_read(entities, cache, replies, m, if k < before.rules.len() {
                k
            } else {
                0
            });
        }
        if k < before.rules.len() {
            assert(all.rules[k] == before.rules[k]);
        } else {
            let body = all.rules[k];
            let rule = entities[m as int];
            if before.cache.bodies.contains_key(rule) {
                lemma_kept_stays(entities, cache, replies, 0, m, rule);
                if !cache.bodies.contains_key(rule) {
                    lemma_kept_was_compiled(entities, cache, replies, 0, m, rule);
                    let j = choose|j: int|
                        0 <= j < m && entities[j] == rule && #[trigger] compiled_to(
                            replies[j],
                            before.cache.bodies[rule],
                        );
                    assert(compiled_to(replies[j], body));
                } else {
                    assert(cache.bodies.contains_key(entities[m as int]));
                }
            } else {
                assert(compiled_to(replies[m as int], body));
            }
        }
    }
}

/// Taking what is kept goes on up to the first rule that is not kept, takes
/// each rule on the way, in order, and leaves out none.
pub proof fn law_kept_rules_are_taken<V>(resolution: ResolutionView<V>, bodies: Map<Seq<char>, V>)
    ensures
        ({
            let after = resolution.with_kept(bodies);
            let taken = after.done - resolution.done;
            &&& after.entities == resolution.entities
            &&& taken >= 0
            &&& after.rules.len() == resolution.rules.len() + taken
            &&& after.rules.take(resolution.rules.len() as int) == resolution.rules
            &&& forall|k: int|
                0 <= k < taken ==> bodies.contains_key(
                    #[trigger] resolution.entities[resolution.done + k],
                ) && after.rules[resolution.rules.len() + k]
                    == bodies[resolution.entities[resolution.done + k]]
            &&& after.done >= resolution.entities.len() || !bodies.contains_key(
                resolution.entities[after.done as int],
            )
            &&& taken > 0 ==> after.done <= resolution.entities.len()
        }),
    decreases resolution.entities.len() - resolution.done,
{
    let after = resolution.with_kept(bodies);
    if resolution.done < resolution.entities.len() && bodies.contains_key(
        resolution.entities[resolution.done as int],
    ) {
        let next = ResolutionView {
            done: resolution.done + 1,
            rules: resolution.rules.push(bodies[resolution.entities[resolution.done as int]]),
            ..resolution
        };
        assert(after == next.with_kept(bodies));
        law_kept_rules_are_taken(next, bodies);
        let had = resolution.rules.len() as int;
        assert(after.rules.take(had) =~= next.rules.take(had));
        assert(next.rules.take(had) =~= resolution.rules);
        assert forall|k: int| 0 <= k < after.done - resolution.done implies bodies.contains_key(
            #[trigger] resolution.entities[resolution.done + k],
        ) && after.rules[had + k] == bodies[resolution.entities[resolution.done + k]] by {
            if k == 0 {
                assert(after.rules.take(had + 1)[had] == next.rules[had]);
            } else {
                assert(next.entities[next.done + (k - 1)] == resolution.entities[resolution.done
                    + k]);
            }
        }
    } else {
        assert(after.rules.take(resolution.rules.len() as int) =~= resolution.rules);
    }
}

/// The rules known at the head are read without a search. Where none are known
/// there, the entities that a search finds are read, in order, and are kept for
/// the head, if there is one; all else that is kept stays. A search that fails
/// makes the reading fail and changes nothing.
pub proof fn law_searches<R: View>(
    cache: RuleCacheView<R::V>,
    concept: Seq<char>,
    head: Option<RevisionView>,
    search: Result<Vec<Artifact>, String>,
    replies: Seq<Reply<R>>,
)
    ensures
        ({
            let known = head is Some && cache.discovery.contains_key(concept)
                && cache.discovery[concept].head == head->0;
            let read = outcome(cache, concept, head, search, replies);
            &&& known ==> read == gather(
                cache.discovery[concept].entities,
                cache,
                replies,
                cache.discovery[concept].entities.len(),
            )
            &&& !known && search is Err ==> {
                &&& read.error == Some(
                    EvaluationErrorView::Store("rule conclusion lookup: "@ + search->Err_0@),
                )
                &&& read.rules.len() == 0
                &&& read.cache == cache
            }
            &&& !known && search is Ok ==> {
                let claims = search->Ok_0@;
                let entities = Seq::new(claims.len(), |i: int| claims[i]@.of);
                let kept = match head {
                    Some(head) => RuleCacheView {
                        discovery: cache.discovery.insert(
                            concept,
                            crate::rules::DiscoveryView { head, entities },
                        ),
                        bodies: cache.bodies,
                    },
                    None => cache,
                };
                read == gather(entities, kept, replies, claims.len())
            }
        }),
{
    if let Ok(claims) = search {
        assert(entities_of(views(claims@)) =~= Seq::new(
            claims@.len(),
            |i: int| claims@[i]@.of,
        ));
    }
}

/// The steps of a reading: it starts with no rule done and none taken, a rule
/// that is compiled is taken behind the others, and one that is left out only
/// counts as done.
pub proof fn law_readings_go_step_by_step<V>(
    entities: Seq<Seq<char>>,
    resolution: ResolutionView<V>,
    body: V,
)
    ensures
        ResolutionView::<V>::start(entities).entities == entities,
        ResolutionView::<V>::start(entities).done == 0,
        ResolutionView::<V>::start(entities).rules.len() == 0,
        resolution.taken(body).entities == resolution.entities,
        resolution.taken(body).done == resolution.done + 1,
        resolution.taken(body).rules == resolution.rules.push(body),
        resolution.skipped().entities == resolution.entities,
        resolution.skipped().done == resolution.done + 1,
        resolution.skipped().rules == resolution.rules,
        resolution.finished() <==> resolution.done >= resolution.entities.len(),
{
}

/// One reply for each rule that is found, or that is known, is enough.
pub proof fn law_one_reply_for_each_rule<R: View>(
    cache: RuleCacheView<R::V>,
    concept: Seq<char>,
    head: Option<RevisionView>,
    search: Result<Vec<Artifact>, String>,
    replies: Seq<Reply<R>>,
)
    ensures
        ({
            let known = head is Some && cache.discovery.contains_key(concept)
                && cache.discovery[concept].head == head->0;
            answered(cache, concept, head, search, replies) <==> if known {
                replies.len() == cache.discovery[concept].entities.len()
            } else {
                search is Ok ==> replies.len() == search->Ok_0@.len()
            }
        }),
{
}

} // verus!
