//! The rules of a concept, over all that a query reads.

use crate::artifact::Artifact;
use crate::branch::BranchView;
use crate::changes::{Changes, PendingView};
use crate::durable::{
    after_search, answered, compiled_to, durable_rules, found, gather, lemma_kept_stays,
    lemma_kept_was_compiled, outcome, Reply,
};
use crate::error::{EvaluationError, EvaluationErrorView};
use crate::identity::Entity;
use crate::overlay::{
    all_compiled, builtin, builtin_rule, concat, concluding, first_compiled, first_unread,
    overlay_candidates, overlay_sources, resolve_rules, rules_read, sources_of, ConceptRules,
    Formula, ProjectionView,
};
use crate::plain::{lemma_views_add, opt_view, views, Plain};
use crate::rules::{RuleCache, RuleCacheView};
use crate::session::QueryEnv;
use vstd::prelude::*;

verus! {

/// What the outside world answers of one branch.
pub struct BranchReply<R> {
    /// Which cache is that of the branch.
    pub cache: usize,
    /// What came of searching the branch for the rules that conclude the
    /// concept.
    pub search: Result<Vec<Artifact>, String>,
    /// What is answered of each rule.
    pub replies: Vec<Reply<R>>,
}

/// What came of compiling a source.
pub struct Attempt<R> {
    /// The source.
    pub source: Vec<u8>,
    /// The compiled rule, if it compiles.
    pub rule: Option<R>,
}

/// All that the outside world answers where the rules of a concept are
/// resolved. What is not asked for is left unused.
pub struct Replies<R> {
    /// The rule that the description of the concept makes.
    pub implicit: R,
    /// The compiled rule that is built in for revisions.
    pub revision: R,
    /// The compiled rule that is built in for the parents of revisions.
    pub parent: R,
    /// What is answered of each branch.
    pub branches: Vec<BranchReply<R>>,
    /// What came of compiling the sources that pending changes state.
    pub attempts: Vec<Attempt<R>>,
}

/// What was read of several branches: their rules, one branch after another,
/// or else the first failure, and what is kept then.
#[verifier::ext_equal]
pub struct BranchesRead<V> {
    pub rules: Seq<V>,
    pub error: Option<EvaluationErrorView>,
    pub caches: Seq<RuleCacheView<V>>,
}

/// The reading of the rules of the first `n` branches.
pub open spec fn read_branches<R: View>(
    caches: Seq<RuleCacheView<R::V>>,
    concept: Seq<char>,
    branches: Seq<BranchView>,
    replies: Seq<BranchReply<R>>,
    n: nat,
) -> BranchesRead<R::V>
    decreases n,
{
    if n == 0 {
        BranchesRead { rules: Seq::empty(), error: None, caches }
    } else {
        let before = read_branches(caches, concept, branches, replies, (n - 1) as nat);
        if before.error is Some {
            before
        } else {
            let reply = replies[n - 1];
            let read = outcome(
                before.caches[reply.cache as int],
                concept,
                branches[n - 1].head(),
                reply.search,
                reply.replies@,
            );
            BranchesRead {
                rules: before.rules + read.rules,
                error: read.error,
                caches: before.caches.update(reply.cache as int, read.cache),
            }
        }
    }
}

/// Whether there is an answer of each branch, with one reply for each rule
/// that is to be read.
pub open spec fn all_answered<R: View>(
    caches: Seq<RuleCacheView<R::V>>,
    concept: Seq<char>,
    branches: Seq<BranchView>,
    replies: Seq<BranchReply<R>>,
) -> bool {
    &&& replies.len() == branches.len()
    &&& forall|i: int|
        0 <= i < replies.len() ==> (#[trigger] replies[i]).cache < caches.len() && {
            let before = read_branches(caches, concept, branches, replies, i as nat);
            before.error is None ==> answered(
                before.caches[replies[i].cache as int],
                concept,
                branches[i].head(),
                replies[i].search,
                replies[i].replies@,
            )
        }
}

/// The compiled form of the rule that is built in, if there is one.
pub open spec fn projected<V>(rule: Option<ProjectionView>, revision: V, parent: V) -> Seq<V> {
    match rule {
        Some(rule) => match rule.formula {
            Formula::Revision => seq![revision],
            Formula::RevisionParent => seq![parent],
        },
        None => Seq::empty(),
    }
}

/// What the source compiled to. A source that was not compiled came to
/// nothing.
pub open spec fn attempted<R: View>(attempts: Seq<Attempt<R>>, source: Seq<u8>) -> Option<R::V>
    decreases attempts.len(),
{
    if attempts.len() == 0 {
        None
    } else if attempts[0].source@ == source {
        opt_view(attempts[0].rule)
    } else {
        attempted(attempts.drop_first(), source)
    }
}

/// What the first of the sources that compiles compiled to.
pub open spec fn first_attempted<R: View>(
    attempts: Seq<Attempt<R>>,
    sources: Seq<Seq<u8>>,
) -> Option<R::V>
    decreases sources.len(),
{
    if sources.len() == 0 {
        None
    } else if attempted(attempts, sources[0]) is Some {
        attempted(attempts, sources[0])
    } else {
        first_attempted(attempts, sources.drop_first())
    }
}

/// For each of the rules what the first of its sources that compiles compiled
/// to, where the changes state the sources; nothing for a rule of which none
/// does.
pub open spec fn pending_rules<R: View>(
    changes: Seq<PendingView>,
    entities: Seq<Seq<char>>,
    attempts: Seq<Attempt<R>>,
) -> Seq<R::V>
    decreases entities.len(),
{
    if entities.len() == 0 {
        Seq::empty()
    } else {
        let before = pending_rules(changes, entities.drop_last(), attempts);
        match first_attempted(attempts, sources_of(changes, entities.last())) {
            Some(rule) => before.push(rule),
            None => before,
        }
    }
}

fn attempt<R: Plain>(attempts: &Vec<Attempt<R>>, source: &Vec<u8>) -> (result: Option<R>)
    ensures
        opt_view(result) == attempted(attempts@, source@),
{
    let mut i: usize = 0;
    assert(attempts@.skip(0) =~= attempts@);
    while i < attempts.len()
        invariant
            i <= attempts@.len(),
            attempted(attempts@, source@) == attempted(attempts@.skip(i as int), source@),
        decreases attempts@.len() - i,
    {
        assert(attempts@.skip(i as int)[0] == attempts@[i as int]);
        if attempts[i].source.same(source) {
            return match &attempts[i].rule {
                Some(rule) => Some(rule.copy()),
                None => None,
            };
        }
        assert(attempts@.skip(i as int).drop_first() =~= attempts@.skip(i + 1));
        i += 1;
    }
    None
}

/// Whether the sources compiled to these rules, one for each.
spec fn tried<R: View>(
    attempts: Seq<Attempt<R>>,
    sources: Seq<Seq<u8>>,
    compiled: Seq<Option<R>>,
) -> bool {
    &&& compiled.len() == sources.len()
    &&& forall|j: int|
        0 <= j < compiled.len() ==> opt_view(#[trigger] compiled[j]) == attempted(
            attempts,
            sources[j],
        )
}

fn try_sources<R: Plain>(
    attempts: &Vec<Attempt<R>>,
    sources: &Vec<Vec<u8>>,
) -> (result: Vec<Option<R>>)
    ensures
        tried(attempts@, views(sources@), result@),
{
    let mut result: Vec<Option<R>> = Vec::new();
    let mut i: usize = 0;
    while i < sources.len()
        invariant
            i <= sources@.len(),
            result@.len() == i,
            forall|j: int|
                0 <= j < i ==> opt_view(#[trigger] result@[j]) == attempted(
                    attempts@,
                    views(sources@)[j],
                ),
        decreases sources@.len() - i,
    {
        assert(views(sources@)[i as int] == sources@[i as int]@);
        result.push(attempt(attempts, &sources[i]));
        i += 1;
    }
    result
}

fn try_all<R: Plain>(
    attempts: &Vec<Attempt<R>>,
    candidates: &Vec<Vec<Vec<u8>>>,
) -> (result: Vec<Vec<Option<R>>>)
    ensures
        result@.len() == candidates@.len(),
        forall|i: int|
            0 <= i < result@.len() ==> tried(
                attempts@,
                views(candidates@[i]@),
                (#[trigger] result@[i])@,
            ),
{
    let mut result: Vec<Vec<Option<R>>> = Vec::new();
    let mut i: usize = 0;
    while i < candidates.len()
        invariant
            i <= candidates@.len(),
            result@.len() == i,
            forall|j: int|
                0 <= j < i ==> tried(
                    attempts@,
                    views(candidates@[j]@),
                    (#[trigger] result@[j])@,
                ),
        decreases candidates@.len() - i,
    {
        result.push(try_sources(attempts, &candidates[i]));
        i += 1;
    }
    result
}

/// The first rule that compiled is that of the first source that compiles.
proof fn lemma_first_tried<R: View>(
    attempts: Seq<Attempt<R>>,
    sources: Seq<Seq<u8>>,
    compiled: Seq<Option<R>>,
)
    requires
        tried(attempts, sources, compiled),
    ensures
        opt_view(first_compiled(compiled)) == first_attempted(attempts, sources),
    decreases compiled.len(),
{
    if compiled.len() > 0 {
        assert(opt_view(compiled[0]) == attempted(attempts, sources[0]));
        lemma_first_tried(attempts, sources.drop_first(), compiled.drop_first());
    }
}

/// What was compiled for all rules comes to the rules of the pending changes.
proof fn lemma_all_tried<R: View>(
    changes: Seq<PendingView>,
    entities: Seq<Seq<char>>,
    attempts: Seq<Attempt<R>>,
    compiled: Seq<Vec<Option<R>>>,
)
    requires
        compiled.len() == entities.len(),
        forall|i: int|
            0 <= i < compiled.len() ==> tried(
                attempts,
                sources_of(changes, entities[i]),
                (#[trigger] compiled[i])@,
            ),
    ensures
        views(all_compiled(compiled)) == pending_rules(changes, entities, attempts),
    decreases compiled.len(),
{
    if compiled.len() > 0 {
        let last = compiled[compiled.len() - 1];
        let init = compiled.drop_last();
        assert forall|i: int| 0 <= i < init.len() implies tried(
            attempts,
            sources_of(changes, entities.drop_last()[i]),
            (#[trigger] init[i])@,
        ) by {
            assert(init[i] == compiled[i]);
        }
        lemma_all_tried(changes, entities.drop_last(), attempts, init);
        lemma_first_tried(attempts, sources_of(changes, entities.last()), last@);
    }
    assert(views(all_compiled(compiled)) =~= pending_rules(changes, entities, attempts));
}

/// A failed reading of branches stays as it is.
proof fn lemma_failure_stays<R: View>(
    caches: Seq<RuleCacheView<R::V>>,
    concept: Seq<char>,
    branches: Seq<BranchView>,
    replies: Seq<BranchReply<R>>,
    n: nat,
    m: nat,
)
    requires
        n <= m,
        read_branches(caches, concept, branches, replies, n).error is Some,
    ensures
        read_branches(caches, concept, branches, replies, m) == read_branches(
            caches,
            concept,
            branches,
            replies,
            n,
        ),
    decreases m,
{
    if n < m {
        lemma_failure_stays(caches, concept, branches, replies, n, (m - 1) as nat);
    }
}

/// The first failure among branches is there whatever comes after it.
proof fn lemma_first_unread_push<R>(
    durable: Seq<Result<Vec<R>, EvaluationError>>,
    next: Result<Vec<R>, EvaluationError>,
)
    requires
        first_unread(durable) is None,
    ensures
        first_unread(durable.push(next)) == (match next {
            Ok(_) => None,
            Err(error) => Some(error),
        }),
    decreases durable.len(),
{
    reveal_with_fuel(first_unread, 2);
    let all = durable.push(next);
    if durable.len() > 0 {
        assert(all[0] == durable[0]);
        lemma_first_unread_push(durable.drop_first(), next);
        assert(all.drop_first() =~= durable.drop_first().push(next));
    } else {
        assert(all[0] == next);
        assert(all.drop_first().len() == 0);
    }
}

/// Reading one branch more adds its rules.
proof fn lemma_rules_read_push<R: View>(
    durable: Seq<Result<Vec<R>, EvaluationError>>,
    rules: Vec<R>,
)
    ensures
        views(concat(rules_read(durable.push(Ok(rules))))) == views(concat(rules_read(durable)))
            + views(rules@),
{
    let all = rules_read(durable.push(Ok(rules)));
    assert(all.drop_last() =~= rules_read(durable));
    assert(all.last() == rules);
    lemma_views_add(concat(rules_read(durable)), rules@);
}

/// What came of compiling the sources that the changes state for the concept.
fn compile_pending<R: Plain>(
    changes: &Changes,
    concept: &Entity,
    attempts: &Vec<Attempt<R>>,
) -> (result: Vec<Vec<Option<R>>>)
    ensures
        views(all_compiled(result@)) == pending_rules(
            changes@,
            concluding(changes@, concept@),
            attempts@,
        ),
{
    let candidates = overlay_sources(changes, concept);
    let compiled = try_all(attempts, &candidates);
    proof {
        let entities = concluding(changes@, concept@);
        let asked = overlay_candidates(changes@, concept@);
        assert(asked.len() == candidates@.len());
        assert forall|k: int| 0 <= k < compiled@.len() implies tried(
            attempts@,
            sources_of(changes@, entities[k]),
            (#[trigger] compiled@[k])@,
        ) by {
            let sources = Seq::new(candidates@.len(), |i: int| views(candidates@[i]@));
            assert(sources[k] == views(candidates@[k]@));
            assert(sources[k] == asked[k]);
        }
        lemma_all_tried(changes@, entities, attempts@, compiled@);
    }
    compiled
}

/// The compiled form of the rule that is built in for the concept.
fn project<R: Plain>(
    concept: &Entity,
    revision: &Entity,
    parent: &Entity,
    replies: &Replies<R>,
) -> (result: Option<R>)
    ensures
        (match opt_view(result) {
            Some(rule) => seq![rule],
            None => Seq::empty(),
        }) == projected(
            builtin_rule(concept@, revision@, parent@),
            replies.revision@,
            replies.parent@,
        ),
{
    match builtin(concept, revision, parent) {
        Some(rule) => match rule.formula {
            Formula::Revision => Some(replies.revision.copy()),
            Formula::RevisionParent => Some(replies.parent.copy()),
        },
        None => None,
    }
}

impl<'a> QueryEnv<'a> {
    /// Reads the rules of each branch, up to the first that fails.
    fn durable_layers<R: Plain>(
        &self,
        concept: &Entity,
        caches: &mut Vec<RuleCache<R>>,
        replies: &Vec<BranchReply<R>>,
    ) -> (result: Vec<Result<Vec<R>, EvaluationError>>)
        requires
            all_answered(views(old(caches)@), concept@, self@.branches, replies@),
        ensures
            ({
                let read = read_branches(
                    views(old(caches)@),
                    concept@,
                    self@.branches,
                    replies@,
                    self@.branches.len(),
                );
                &&& views(final(caches)@) == read.caches
                &&& opt_view(first_unread(result@)) == read.error
                &&& read.error is None ==> views(concat(rules_read(result@))) == read.rules
            }),
    {
        let ghost kept = views(caches@);
        let ghost branches = self@.branches;
        let mut durable: Vec<Result<Vec<R>, EvaluationError>> = Vec::new();
        let mut i: usize = 0;
        assert(rules_read(durable@) =~= Seq::empty());
        assert(views(concat(rules_read(durable@))) =~= Seq::empty());
        while i < self.branches.len()
            invariant
                i <= self.branches@.len(),
                kept == views(old(caches)@),
                branches == self@.branches,
                branches.len() == self.branches@.len(),
                all_answered(kept, concept@, branches, replies@),
                caches@.len() == kept.len(),
                first_unread(durable@) is None,
                ({
                    let read = read_branches(kept, concept@, branches, replies@, i as nat);
                    &&& read.error is None
                    &&& views(caches@) == read.caches
                    &&& views(concat(rules_read(durable@))) == read.rules
                }),
            decreases self.branches@.len() - i,
        {
            let reply = &replies[i];
            assert(reply == replies@[i as int]);
            let head = self.branches[i].revision();
            let ghost before = views(caches@);
            assert(before[reply.cache as int] == caches@[reply.cache as int]@);
            let read = durable_rules(
                &mut caches[reply.cache],
                concept,
                &head,
                &reply.search,
                &reply.replies,
            );
            let failed = read.is_err();
            proof {
                let after = caches@[reply.cache as int]@;
                assert(views(caches@) =~= before.update(reply.cache as int, after));
                lemma_first_unread_push(durable@, read);
                if failed {
                    lemma_failure_stays(
                        kept,
                        concept@,
                        branches,
                        replies@,
                        (i + 1) as nat,
                        branches.len(),
                    );
                } else {
                    lemma_rules_read_push(durable@, read->Ok_0);
                }
            }
            durable.push(read);
            if failed {
                return durable;
            }
            i += 1;
        }
        durable
    }

    /// Resolves the rules of a concept as a whole, for given replies, where
    /// `revision` and `parent` are the concepts that are derived from the
    /// records of revisions.
    ///
    /// The rules are what is built in for the concept, those that each branch
    /// holds for it, and those that the pending changes state for it. Only
    /// what branches hold is kept. Where the rules of a branch cannot be read,
    /// there is no result but that failure.
    pub fn select_rules<R: Plain>(
        &self,
        concept: &Entity,
        revision: &Entity,
        parent: &Entity,
        caches: &mut Vec<RuleCache<R>>,
        replies: &Replies<R>,
    ) -> (result: Result<ConceptRules<R>, EvaluationError>)
        requires
            all_answered(
                views(old(caches)@),
                concept@,
                self@.branches,
                replies.branches@,
            ),
        ensures
            ({
                let read = read_branches(
                    views(old(caches)@),
                    concept@,
                    self@.branches,
                    replies.branches@,
                    self@.branches.len(),
                );
                &&& views(final(caches)@) == read.caches
                &&& match read.error {
                    Some(error) => result matches Err(failure) && failure@ == error,
                    None => result matches Ok(rules) && rules.implicit@ == replies.implicit@
                        && views(rules.installed@) == projected(
                        builtin_rule(concept@, revision@, parent@),
                        replies.revision@,
                        replies.parent@,
                    ) + read.rules + pending_rules(
                        self@.changes,
                        concluding(self@.changes, concept@),
                        replies.attempts@,
                    ),
                }
            }),
    {
        let durable = self.durable_layers(concept, caches, &replies.branches);
        let built_in = project(concept, revision, parent, replies);
        let compiled = compile_pending(&self.changes, concept, &replies.attempts);
        proof {
            let first = if built_in is Some {
                seq![built_in->0]
            } else {
                Seq::empty()
            };
            let middle = concat(rules_read(durable@));
            assert(views(first) =~= projected(
                builtin_rule(concept@, revision@, parent@),
                replies.revision@,
                replies.parent@,
            ));
            lemma_views_add(first, middle);
            lemma_views_add(first + middle, all_compiled(compiled@));
        }
        resolve_rules(replies.implicit.copy(), built_in, durable, compiled)
    }
}

/// Whether the `j`-th rule that is found on the `i`-th branch is `rule`, and a
/// source that the branch holds of it compiled to `body`.
pub open spec fn stored<R: View>(
    caches: Seq<RuleCacheView<R::V>>,
    concept: Seq<char>,
    branches: Seq<BranchView>,
    replies: Seq<BranchReply<R>>,
    i: int,
    j: int,
    rule: Seq<char>,
    body: R::V,
) -> bool {
    let before = read_branches(caches, concept, branches, replies, i as nat);
    let entities = found(
        before.caches[replies[i].cache as int],
        concept,
        branches[i].head(),
        match replies[i].search {
            Ok(claims) => views(claims@),
            Err(_) => Seq::empty(),
        },
    );
    &&& 0 <= j < entities.len()
    &&& entities[j] == rule
    &&& compiled_to(replies[i].replies@[j], body)
}

/// Rules of pending changes are not kept: each compiled rule that a cache comes
/// to keep is one that its branch holds, and was compiled from the source that
/// the branch holds of it.
pub proof fn law_only_stored_rules_are_kept<R: View>(
    caches: Seq<RuleCacheView<R::V>>,
    concept: Seq<char>,
    branches: Seq<BranchView>,
    replies: Seq<BranchReply<R>>,
    n: nat,
    cache: int,
    rule: Seq<char>,
)
    requires
        forall|i: int| 0 <= i < n ==> (#[trigger] replies[i]).cache < caches.len(),
        0 <= cache < caches.len(),
        !caches[cache].bodies.contains_key(rule),
        read_branches(caches, concept, branches, replies, n).caches[cache].bodies.contains_key(
            rule,
        ),
    ensures
        exists|i: int, j: int|
            0 <= i < n && replies[i].cache == cache && #[trigger] stored(
                caches,
                concept,
                branches,
                replies,
                i,
                j,
                rule,
                read_branches(caches, concept, branches, replies, n).caches[cache].bodies[rule],
            ),
    decreases n,
{
    let after = read_branches(caches, concept, branches, replies, n);
    if n > 0 {
        let m = (n - 1) as nat;
        let before = read_branches(caches, concept, branches, replies, m);
        lemma_cache_count(caches, concept, branches, replies, m);
        let reply = replies[m as int];
        let body = after.caches[cache].bodies[rule];
        let claims = match reply.search {
            Ok(claims) => views(claims@),
            Err(_) => Seq::empty(),
        };
        let entities = found(
            before.caches[cache],
            concept,
            branches[m as int].head(),
            claims,
        );
        let start = after_search(
            before.caches[cache],
            concept,
            branches[m as int].head(),
            claims,
        );
        let all = entities.len();
        if before.caches[cache].bodies.contains_key(rule) {
            law_only_stored_rules_are_kept(caches, concept, branches, replies, m, cache, rule);
            lemma_kept_stays(entities, start, reply.replies@, 0, all, rule);
            let (i, j) = choose|i: int, j: int|
                0 <= i < m && replies[i].cache == cache && #[trigger] stored(
                    caches,
                    concept,
                    branches,
                    replies,
                    i,
                    j,
                    rule,
                    before.caches[cache].bodies[rule],
                );
            assert(stored(caches, concept, branches, replies, i, j, rule, body));
        } else {
            assert(!gather(entities, start, reply.replies@, 0).cache.bodies.contains_key(rule));
            lemma_kept_was_compiled(entities, start, reply.replies@, 0, all, rule);
            let j = choose|j: int|
                0 <= j < all && entities[j] == rule && #[trigger] compiled_to(
                    reply.replies@[j],
                    gather(entities, start, reply.replies@, all).cache.bodies[rule],
                );
            assert(stored(caches, concept, branches, replies, m as int, j, rule, body));
        }
    }
}

/// Reading branches changes caches, and neither adds nor drops any.
proof fn lemma_cache_count<R: View>(
    caches: Seq<RuleCacheView<R::V>>,
    concept: Seq<char>,
    branches: Seq<BranchView>,
    replies: Seq<BranchReply<R>>,
    n: nat,
)
    requires
        forall|i: int| 0 <= i < n ==> (#[trigger] replies[i]).cache < caches.len(),
    ensures
        read_branches(caches, concept, branches, replies, n).caches.len() == caches.len(),
    decreases n,
{
    if n > 0 {
        lemma_cache_count(caches, concept, branches, replies, (n - 1) as nat);
    }
}

/// What a source compiled to is what the first attempt at it came to; a source
/// that was not attempted came to nothing.
pub proof fn law_first_attempt_counts<R: View>(
    attempts: Seq<Attempt<R>>,
    source: Seq<u8>,
    i: int,
)
    ensures
        0 <= i < attempts.len() && attempts[i].source@ == source && (forall|j: int|
            0 <= j < i ==> (#[trigger] attempts[j]).source@ != source) ==> attempted(
            attempts,
            source,
        ) == (match attempts[i].rule {
            Some(rule) => Some(rule@),
            None => None,
        }),
        (forall|j: int| 0 <= j < attempts.len() ==> (#[trigger] attempts[j]).source@ != source)
            ==> attempted(attempts, source) is None,
    decreases attempts.len(),
{
    if attempts.len() > 0 {
        let rest = attempts.drop_first();
        law_first_attempt_counts(rest, source, i - 1);
        if 0 < i < attempts.len() && forall|j: int|
            0 <= j < i ==> (#[trigger] attempts[j]).source@ != source {
            assert(attempts[0].source@ != source);
            assert(rest[i - 1] == attempts[i]);
            assert forall|j: int| 0 <= j < i - 1 implies (
            #[trigger] rest[j]).source@ != source by {
                assert(rest[j] == attempts[j + 1]);
            }
        }
        if forall|j: int| 0 <= j < attempts.len() ==> (#[trigger] attempts[j]).source@ != source {
            assert(attempts[0].source@ != source);
            assert forall|j: int| 0 <= j < rest.len() implies (
            #[trigger] rest[j]).source@ != source by {
                assert(rest[j] == attempts[j + 1]);
            }
        }
    }
}

/// Of the sources of a rule the first that compiles counts, and none where
/// none compiles.
pub proof fn law_first_source_counts<R: View>(
    attempts: Seq<Attempt<R>>,
    sources: Seq<Seq<u8>>,
    i: int,
)
    ensures
        0 <= i < sources.len() && attempted(attempts, sources[i]) is Some && (forall|j: int|
            0 <= j < i ==> attempted(attempts, #[trigger] sources[j]) is None) ==> first_attempted(
            attempts,
            sources,
        ) == attempted(attempts, sources[i]),
        (forall|j: int|
            0 <= j < sources.len() ==> attempted(attempts, #[trigger] sources[j]) is None)
            ==> first_attempted(attempts, sources) is None,
    decreases sources.len(),
{
    if sources.len() > 0 {
        let rest = sources.drop_first();
        law_first_source_counts(attempts, rest, i - 1);
        if 0 < i < sources.len() && forall|j: int|
            0 <= j < i ==> attempted(attempts, #[trigger] sources[j]) is None {
            assert(attempted(attempts, sources[0]) is None);
            assert(rest[i - 1] == sources[i]);
            assert forall|j: int| 0 <= j < i - 1 implies attempted(
                attempts,
                #[trigger] rest[j],
            ) is None by {
                assert(rest[j] == sources[j + 1]);
            }
        }
        if forall|j: int|
            0 <= j < sources.len() ==> attempted(attempts, #[trigger] sources[j]) is None {
            assert(attempted(attempts, sources[0]) is None);
            assert forall|j: int| 0 <= j < rest.len() implies attempted(
                attempts,
                #[trigger] rest[j],
            ) is None by {
                assert(rest[j] == sources[j + 1]);
            }
        }
    }
}

/// Each rule of which a source compiles is there, in order: what rules in a row
/// come to is what the one and then the other comes to.
pub proof fn law_pending_rules_add_up<R: View>(
    changes: Seq<PendingView>,
    a: Seq<Seq<char>>,
    b: Seq<Seq<char>>,
    rule: Seq<char>,
    attempts: Seq<Attempt<R>>,
)
    ensures
        pending_rules(changes, a + b, attempts) == pending_rules(changes, a, attempts)
            + pending_rules(changes, b, attempts),
        pending_rules(changes, seq![rule], attempts) == (match first_attempted(
            attempts,
            sources_of(changes, rule),
        ) {
            Some(body) => seq![body],
            None => Seq::empty(),
        }),
        pending_rules(changes, Seq::empty(), attempts).len() == 0,
    decreases b.len(),
{
    if b.len() == 0 {
        assert(a + b =~= a);
    } else {
        law_pending_rules_add_up(changes, a, b.drop_last(), rule, attempts);
        assert((a + b).drop_last() =~= a + b.drop_last());
        assert((a + b).last() == b.last());
    }
    assert(pending_rules(changes, a + b, attempts) =~= pending_rules(changes, a, attempts)
        + pending_rules(changes, b, attempts));
    let one = seq![rule];
    assert(one.drop_last() =~= Seq::empty());
    assert(one.last() == rule);
    reveal_with_fuel(pending_rules, 2);
    assert(pending_rules(changes, one, attempts) =~= match first_attempted(
        attempts,
        sources_of(changes, rule),
    ) {
        Some(body) => seq![body],
        None => Seq::empty(),
    });
}

/// What is built in for a concept is there in its compiled form: that for
/// revisions, that for their parents, and nothing for any other concept.
pub proof fn law_built_in_rules_are_projected<V>(
    concept: Seq<char>,
    revision: Seq<char>,
    parent: Seq<char>,
    for_revision: V,
    for_parent: V,
)
    ensures
        projected(builtin_rule(concept, revision, parent), for_revision, for_parent) == (if concept
            == revision {
            seq![for_revision]
        } else if concept == parent {
            seq![for_parent]
        } else {
            Seq::empty()
        }),
{
}

/// Where no branch fails, every branch brings its rules, each behind those of
/// the branches before it, and none takes those of another away. A branch that
/// fails makes the whole fail as it does, and the branches behind it are not
/// read.
pub proof fn law_every_branch_brings_its_rules<R: View>(
    caches: Seq<RuleCacheView<R::V>>,
    concept: Seq<char>,
    branches: Seq<BranchView>,
    replies: Seq<BranchReply<R>>,
    n: nat,
    i: int,
)
    requires
        0 <= i < n,
        forall|k: int| 0 <= k < n ==> (#[trigger] replies[k]).cache < caches.len(),
        forall|k: int, m: int|
            0 <= k < m < n ==> (#[trigger] replies[k]).cache != (#[trigger] replies[m]).cache,
    ensures
        ({
            let all = read_branches(caches, concept, branches, replies, n);
            let before = read_branches(caches, concept, branches, replies, i as nat);
            let own = outcome(
                caches[replies[i].cache as int],
                concept,
                branches[i].revision.content,
                replies[i].search,
                replies[i].replies@,
            );
            let start = before.rules.len() as int;
            &&& all.error is None ==> {
                &&& before.error is None
                &&& own.error is None
                &&& start + own.rules.len() <= all.rules.len()
                &&& all.rules.subrange(start, start + own.rules.len()) == own.rules
                &&& all.rules.take(start) == before.rules
                &&& all.caches[replies[i].cache as int] == own.cache
            }
            &&& before.error is None && own.error is Some ==> all.error == own.error
        }),
        read_branches(caches, concept, branches, replies, 0).rules.len() == 0,
        read_branches(caches, concept, branches, replies, 0).error is None,
    decreases n,
{
    let all = read_branches(caches, concept, branches, replies, n);
    let m = (n - 1) as nat;
    let last = read_branches(caches, concept, branches, replies, m);
    lemma_cache_count(caches, concept, branches, replies, m);
    let reply = replies[m as int];
    if i < m {
        law_every_branch_brings_its_rules(caches, concept, branches, replies, m, i);
        let own = outcome(
            caches[replies[i].cache as int],
            concept,
            branches[i].head(),
            replies[i].search,
            replies[i].replies@,
        );
        let before = read_branches(caches, concept, branches, replies, i as nat);
        let start = before.rules.len() as int;
        if all.error is None {
            assert(last.error is None);
            assert(all.rules.subrange(start, start + own.rules.len()) =~= last.rules.subrange(
                start,
                start + own.rules.len(),
            ));
            assert(all.rules.take(start) =~= last.rules.take(start));
            assert(reply.cache != replies[i].cache);
        }
    } else {
        lemma_untouched_cache(caches, concept, branches, replies, m, reply.cache as int);
        let own = outcome(
            caches[reply.cache as int],
            concept,
            branches[m as int].head(),
            reply.search,
            reply.replies@,
        );
        if all.error is None {
            let start = last.rules.len() as int;
            assert(last.error is None);
            assert(all.rules.subrange(start, start + own.rules.len()) =~= own.rules);
            assert(all.rules.take(start) =~= last.rules);
        }
    }
}

/// A cache that none of the branches is kept in stays as it is.
proof fn lemma_untouched_cache<R: View>(
    caches: Seq<RuleCacheView<R::V>>,
    concept: Seq<char>,
    branches: Seq<BranchView>,
    replies: Seq<BranchReply<R>>,
    n: nat,
    cache: int,
)
    requires
        0 <= cache < caches.len(),
        forall|k: int| 0 <= k < n ==> (#[trigger] replies[k]).cache < caches.len(),
        forall|k: int| 0 <= k < n ==> (#[trigger] replies[k]).cache != cache,
    ensures
        read_branches(caches, concept, branches, replies, n).caches[cache] == caches[cache],
    decreases n,
{
    if n > 0 {
        lemma_untouched_cache(caches, concept, branches, replies, (n - 1) as nat, cache);
        lemma_cache_count(caches, concept, branches, replies, (n - 1) as nat);
        assert(replies[n - 1].cache != cache);
    }
}

} // verus!
