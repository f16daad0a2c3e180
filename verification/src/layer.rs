//! Reading several sources of facts as if they were one.
//!
//! [`merge_grouped`] interleaves sorted streams of claims in the order in
//! which one index that held them all would yield them, and drops repeated
//! facts.

use crate::artifact::{key_le, key_lt, law_key_order, Artifact, ArtifactView, Claim, ClaimView};
use crate::error::{ArtifactError, ArtifactErrorView};
use crate::plain::{contains, views, Plain};
use vstd::prelude::*;

verus! {

/// What comes next in a stream.
pub type Item = Result<Claim, ArtifactError>;

/// What an [`Item`] holds.
pub type ItemView = Result<ClaimView, ArtifactErrorView>;

/// The view of an item.
pub open spec fn item_view(item: Item) -> ItemView {
    match item {
        Ok(claim) => Ok(claim@),
        Err(error) => Err(error@),
    }
}

/// The views of the items of a stream.
pub open spec fn stream_view(stream: Seq<Item>) -> Seq<ItemView> {
    Seq::new(stream.len(), |i: int| item_view(stream[i]))
}

/// The views of the items of several streams.
pub open spec fn streams_view(streams: Seq<Vec<Item>>) -> Seq<Seq<ItemView>> {
    Seq::new(streams.len(), |i: int| stream_view(streams[i]@))
}

/// What is next in each stream; nothing where a stream has ended.
pub open spec fn heads(streams: Seq<Seq<ItemView>>) -> Seq<Option<ItemView>> {
    Seq::new(
        streams.len(),
        |i: int|
            if streams[i].len() == 0 {
                None
            } else {
                Some(streams[i][0])
            },
    )
}

/// Whether the next item of a merge is the `i`-th head: the first head that
/// is an error or, where none is, the first of those with the least key.
pub open spec fn is_next(heads: Seq<Option<ItemView>>, i: int) -> bool {
    &&& 0 <= i < heads.len()
    &&& match heads[i] {
        None => false,
        Some(Err(_)) => forall|j: int|
            0 <= j < i ==> !(#[trigger] heads[j] matches Some(Err(_))),
        Some(Ok(least)) => forall|j: int|
            0 <= j < heads.len() ==> match #[trigger] heads[j] {
                None => true,
                Some(Err(_)) => false,
                Some(Ok(other)) => if j < i {
                    key_lt(least.key, other.key)
                } else {
                    key_le(least.key, other.key)
                },
            },
    }
}

/// Two different heads cannot both be next.
pub proof fn lemma_next_unique(heads: Seq<Option<ItemView>>, i: int, j: int)
    requires
        is_next(heads, i),
        is_next(heads, j),
    ensures
        i == j,
{
    if i != j {
        assert(heads[i] is Some && heads[j] is Some);
        match (heads[i], heads[j]) {
            (Some(Ok(a)), Some(Ok(b))) => {
                law_key_order(a.key, b.key, a.key);
            },
            _ => {},
        }
    }
}

/// The head that is next, if there is one.
pub open spec fn next(heads: Seq<Option<ItemView>>) -> Option<int> {
    if exists|i: int| is_next(heads, i) {
        Some(choose|i: int| is_next(heads, i))
    } else {
        None
    }
}

/// The views of the heads of several streams.
pub open spec fn heads_view(heads: Seq<Option<Item>>) -> Seq<Option<ItemView>> {
    Seq::new(
        heads.len(),
        |i: int|
            match heads[i] {
                Some(item) => Some(item_view(item)),
                None => None,
            },
    )
}

/// Which of the heads of several streams a merge yields next: the first
/// error or, where there is none, the first of those with the least key.
/// Nothing is next where every stream has ended.
pub fn next_head(heads: &Vec<Option<Item>>) -> (result: Option<usize>)
    ensures
        next(heads_view(heads@)) == (match result {
            Some(i) => Some(i as int),
            None => None,
        }),
        result is None <==> forall|i: int| 0 <= i < heads@.len() ==> heads@[i] is None,
        result matches Some(i) ==> i < heads@.len() && heads@[i as int] is Some,
{
    let ghost all = heads_view(heads@);
    let mut best: Option<usize> = None;
    let mut i: usize = 0;
    while i < heads.len()
        invariant
            i <= heads@.len(),
            all == heads_view(heads@),
            forall|j: int| 0 <= j < i ==> !(#[trigger] all[j] matches Some(Err(_))),
            match best {
                None => forall|j: int| 0 <= j < i ==> #[trigger] all[j] is None,
                Some(b) => b < i && (all[b as int] matches Some(Ok(least)) && forall|j: int|
                    0 <= j < i ==> match #[trigger] all[j] {
                        None => true,
                        Some(Err(_)) => false,
                        Some(Ok(other)) => if j < b {
                            key_lt(least.key, other.key)
                        } else {
                            key_le(least.key, other.key)
                        },
                    }),
            },
        decreases heads@.len() - i,
    {
        let ghost before = best;
        match &heads[i] {
            None => {
                assert(all[i as int] is None);
            },
            Some(Err(_)) => {
                proof {
                    assert(all[i as int] matches Some(Err(_)));
                    assert(is_next(all, i as int));
                    lemma_next_unique(all, i as int, choose|k: int| is_next(all, k));
                }
                return Some(i);
            },
            Some(Ok(head)) => {
                assert(all[i as int] == Some(Ok::<ClaimView, ArtifactErrorView>(head@)));
                let better = match best {
                    None => true,
                    Some(b) => match &heads[b] {
                        Some(Ok(least)) => {
                            assert(all[b as int] == Some(
                                Ok::<ClaimView, ArtifactErrorView>(least@),
                            ));
                            head.key.less(&least.key)
                        },
                        _ => {
                            assert(false);
                            false
                        },
                    },
                };
                if better {
                    best = Some(i);
                    proof {
                        law_key_order(head@.key, head@.key, head@.key);
                        assert forall|j: int| 0 <= j < i implies match #[trigger] all[j] {
                            None => true,
                            Some(Err(_)) => false,
                            Some(Ok(other)) => key_lt(head@.key, other.key),
                        } by {
                            if let Some(b) = before {
                                if let Some(Ok(least)) = all[b as int] {
                                    if let Some(Ok(other)) = all[j] {
                                        law_key_order(head@.key, least.key, other.key);
                                        law_key_order(least.key, other.key, head@.key);
                                        law_key_order(other.key, least.key, head@.key);
                                        law_key_order(other.key, head@.key, least.key);
                                    }
                                }
                            }
                        }
                    }
                }
            },
        }
        i += 1;
    }
    proof {
        match best {
            Some(b) => {
                assert(is_next(all, b as int));
                lemma_next_unique(all, b as int, choose|k: int| is_next(all, k));
            },
            None => {
                assert forall|k: int| !is_next(all, k) by {
                    if 0 <= k < all.len() {
                        assert(all[k] is None);
                    }
                }
                assert forall|k: int| 0 <= k < heads@.len() implies heads@[k] is None by {
                    assert(all[k] is None);
                }
            },
        }
    }
    best
}

/// The number of items in all streams together.
pub open spec fn total(streams: Seq<Seq<ItemView>>) -> nat
    decreases streams.len(),
{
    if streams.len() == 0 {
        0
    } else {
        total(streams.drop_last()) + streams.last().len()
    }
}

/// Replacing one stream changes the total by the difference of the lengths.
pub proof fn lemma_total_update(streams: Seq<Seq<ItemView>>, i: int, stream: Seq<ItemView>)
    requires
        0 <= i < streams.len(),
    ensures
        total(streams.update(i, stream)) + streams[i].len() == total(streams) + stream.len(),
    decreases streams.len(),
{
    let updated = streams.update(i, stream);
    if i == streams.len() - 1 {
        assert(updated.drop_last() =~= streams.drop_last());
    } else {
        assert(updated.drop_last() =~= streams.drop_last().update(i, stream));
        lemma_total_update(streams.drop_last(), i, stream);
    }
}

/// The streams after the head of the `i`-th was taken.
pub open spec fn advance(streams: Seq<Seq<ItemView>>, i: int) -> Seq<Seq<ItemView>> {
    streams.update(i, streams[i].drop_first())
}

/// The items of all streams in the order in which a merge takes them, up to
/// and with the first error that it meets.
pub open spec fn interleave(streams: Seq<Seq<ItemView>>) -> Seq<ItemView>
    decreases total(streams),
{
    match next(heads(streams)) {
        None => Seq::empty(),
        Some(i) => if 0 <= i < streams.len() && streams[i].len() > 0 {
            match streams[i][0] {
                Err(error) => seq![streams[i][0]],
                Ok(claim) => {
                    proof {
                        lemma_total_update(streams, i, streams[i].drop_first());
                    }
                    seq![streams[i][0]] + interleave(advance(streams, i))
                },
            }
        } else {
            Seq::empty()
        },
    }
}

/// Whether the `q`-th item states the same fact as the `p`-th, with none but
/// items of the same group between them.
pub open spec fn repeats(items: Seq<ItemView>, q: int, p: int) -> bool {
    &&& items[p] matches Ok(later) && items[q] matches Ok(earlier) && earlier.artifact
        == later.artifact && forall|r: int|
        q <= r < p ==> (#[trigger] items[r] matches Ok(between) && between.group()
            == later.group())
}

/// Whether the `p`-th item is the first of its run to state its fact.
pub open spec fn fresh(items: Seq<ItemView>, p: int) -> bool {
    forall|q: int| 0 <= q < p ==> !#[trigger] repeats(items, q, p)
}

/// The items without those that state again what an item of the same run
/// stated before.
pub open spec fn dedup(items: Seq<ItemView>) -> Seq<ItemView>
    decreases items.len(),
{
    if items.len() == 0 {
        Seq::empty()
    } else if fresh(items, items.len() - 1) {
        dedup(items.drop_last()).push(items.last())
    } else {
        dedup(items.drop_last())
    }
}

/// What a merge of the streams yields. One stream alone is passed on as it
/// is.
pub open spec fn merged(streams: Seq<Seq<ItemView>>) -> Seq<ItemView> {
    if streams.len() == 1 {
        streams[0]
    } else {
        dedup(interleave(streams))
    }
}

/// The group that a fact belongs to: the bytes of its attribute and of its
/// entity.
pub fn group_key(claim: &Claim) -> (result: (Vec<u8>, Vec<u8>))
    ensures
        (result.0@, result.1@) == claim@.group(),
{
    (claim.key.0.copy(), claim.key.1.copy())
}

/// The facts already seen of the group that a merge is at.
pub struct Run {
    group: Option<(Vec<u8>, Vec<u8>)>,
    seen: Vec<Artifact>,
}

/// What a [`Run`] holds.
#[verifier::ext_equal]
pub struct RunView {
    pub group: Option<(Seq<u8>, Seq<u8>)>,
    pub seen: Set<ArtifactView>,
}

impl View for Run {
    type V = RunView;

    closed spec fn view(&self) -> RunView {
        RunView {
            group: match self.group {
                Some(group) => Some((group.0@, group.1@)),
                None => None,
            },
            seen: views(self.seen@).to_set(),
        }
    }
}

impl RunView {
    /// Whether the claim states what was seen before in this group.
    pub open spec fn holds(self, claim: ClaimView) -> bool {
        self.group == Some(claim.group()) && self.seen.contains(claim.artifact)
    }

    /// The run after the claim was seen.
    pub open spec fn after(self, claim: ClaimView) -> RunView {
        RunView {
            group: Some(claim.group()),
            seen: if self.group == Some(claim.group()) {
                self.seen.insert(claim.artifact)
            } else {
                Set::empty().insert(claim.artifact)
            },
        }
    }
}

impl Run {
    /// A run in which nothing was seen yet.
    pub fn new() -> (result: Run)
        ensures
            result@ == (RunView { group: None, seen: Set::empty() }),
    {
        let result = Run { group: None, seen: Vec::new() };
        assert(result@.seen =~= Set::<ArtifactView>::empty());
        result
    }

    /// Whether the claim states a fact not yet seen in its run; it counts as
    /// seen from then on. A claim of another group starts a new run.
    pub fn take(&mut self, claim: &Claim) -> (result: bool)
        ensures
            result == !old(self)@.holds(claim@),
            final(self)@ == old(self)@.after(claim@),
    {
        let group = group_key(claim);
        let same = match &self.group {
            Some(current) => current.0.same(&group.0) && current.1.same(&group.1),
            None => false,
        };
        assert(same == (old(self)@.group == Some(claim@.group())));
        if !same {
            self.group = Some(group);
            self.seen = Vec::new();
            assert(views(self.seen@) =~= Seq::<ArtifactView>::empty());
        }
        let ghost seen = views(self.seen@);
        if contains(&self.seen, &claim.artifact) {
            assert(self@.seen =~= seen.to_set().insert(claim@.artifact));
            false
        } else {
            let artifact = claim.artifact.copy();
            proof {
                crate::plain::lemma_views_push(self.seen@, artifact);
                assert(seen.push(artifact@).to_set() =~= seen.to_set().insert(artifact@)) by {
                    assert(seen.push(artifact@)[seen.len() as int] == artifact@);
                    assert forall|a: ArtifactView| seen.contains(a) implies seen.push(
                        artifact@,
                    ).contains(a) by {
                        let k = choose|k: int| 0 <= k < seen.len() && seen[k] == a;
                        assert(seen.push(artifact@)[k] == a);
                    }
                }
            }
            self.seen.push(artifact);
            true
        }
    }
}

/// Where the run that the last of the items belongs to starts, and what was
/// seen in it.
spec fn tracks(run: RunView, items: Seq<ItemView>, start: int) -> bool {
    &&& 0 <= start <= items.len()
    &&& match run.group {
        None => items.len() == 0,
        Some(group) => {
            &&& start < items.len()
            &&& forall|r: int|
                start <= r < items.len() ==> (#[trigger] items[r] matches Ok(claim)
                    && claim.group() == group)
            &&& start > 0 ==> !(items[start - 1] matches Ok(claim) && claim.group() == group)
            &&& forall|a: ArtifactView|
                #![trigger run.seen.contains(a)]
                run.seen.contains(a) <==> exists|r: int|
                    start <= r < items.len() && (#[trigger] items[r] matches Ok(claim)
                        && claim.artifact == a)
        },
    }
}

/// A run that tracks the items decides whether the next one is fresh.
proof fn lemma_tracks_step(run: RunView, items: Seq<ItemView>, start: int, claim: ClaimView)
    requires
        tracks(run, items, start),
    ensures
        fresh(items.push(Ok(claim)), items.len() as int) == !run.holds(claim),
        exists|after: int| tracks(run.after(claim), items.push(Ok(claim)), after),
{
    let more = items.push(Ok(claim));
    let p = items.len() as int;
    if run.group == Some(claim.group()) {
        assert(fresh(more, p) == !run.seen.contains(claim.artifact)) by {
            if run.seen.contains(claim.artifact) {
                let q = choose|r: int|
                    start <= r < items.len() && (#[trigger] items[r] matches Ok(other)
                        && other.artifact == claim.artifact);
                assert(repeats(more, q, p)) by {
                    assert forall|r: int| q <= r < p implies (#[trigger] more[r] matches Ok(
                        between,
                    ) && between.group() == claim.group()) by {
                        assert(items[r] == more[r]);
                    }
                }
            } else {
                assert forall|q: int| 0 <= q < p implies !#[trigger] repeats(more, q, p) by {
                    if repeats(more, q, p) {
                        assert(more[q] == items[q]);
                        if q < start {
                            assert(more[start - 1] == items[start - 1]);
                        } else {
                            assert(items[q] matches Ok(other) && other.artifact == claim.artifact);
                        }
                    }
                }
            }
        }
        let after = run.after(claim);
        assert(tracks(after, more, start)) by {
            assert forall|r: int| start <= r < more.len() implies (#[trigger] more[r] matches Ok(
                other,
            ) && other.group() == claim.group()) by {
                if r < items.len() {
                    assert(more[r] == items[r]);
                }
            }
            if start > 0 {
                assert(more[start - 1] == items[start - 1]);
            }
            assert forall|a: ArtifactView| #![trigger after.seen.contains(a)] after.seen.contains(a) <==> exists|r: int|
                start <= r < more.len() && (#[trigger] more[r] matches Ok(other)
                    && other.artifact == a) by {
                if run.seen.contains(a) {
                    let r = choose|r: int|
                        start <= r < items.len() && (#[trigger] items[r] matches Ok(other)
                            && other.artifact == a);
                    assert(more[r] == items[r]);
                } else if a == claim.artifact {
                    assert(more[p] matches Ok(other) && other.artifact == a);
                } else {
                    assert forall|r: int| start <= r < more.len() implies !(#[trigger] more[r] matches Ok(
                        other,
                    ) && other.artifact == a) by {
                        if r < items.len() {
                            assert(more[r] == items[r]);
                        }
                    }
                }
            }
        }
    } else {
        assert forall|q: int| 0 <= q < p implies !#[trigger] repeats(more, q, p) by {
            assert(more[p - 1] == items[p - 1]);
        }
        let after = run.after(claim);
        assert(more[p] == Ok::<ClaimView, ArtifactErrorView>(claim));
        assert(tracks(after, more, p)) by {
            if p > 0 {
                assert(more[p - 1] == items[p - 1]);
            }
        }
    }
}

/// The items in the opposite order.
pub fn reversed<T>(items: Vec<T>) -> (result: Vec<T>)
    ensures
        result@ == items@.reverse(),
{
    let ghost all = items@;
    let mut items = items;
    let mut result: Vec<T> = Vec::new();
    while items.len() > 0
        invariant
            items@.len() <= all.len(),
            items@ == all.take(items@.len() as int),
            result@ == all.skip(items@.len() as int).reverse(),
        decreases items@.len(),
    {
        if let Some(item) = items.pop() {
            result.push(item);
        }
        assert(result@ =~= all.skip(items@.len() as int).reverse());
    }
    assert(all.skip(0) =~= all);
    result
}

/// What is left of the streams, where the heads were taken off and the rest
/// of each stream is held in the opposite order.
spec fn remaining(heads: Seq<Option<Item>>, rest: Seq<Vec<Item>>) -> Seq<Seq<ItemView>> {
    Seq::new(
        heads.len(),
        |i: int|
            match heads[i] {
                None => Seq::empty(),
                Some(item) => seq![item_view(item)] + stream_view(rest[i]@.reverse()),
            },
    )
}

/// Whether the heads belong to the rests: a stream without a head has ended.
spec fn aligned(heads: Seq<Option<Item>>, rest: Seq<Vec<Item>>) -> bool {
    &&& heads.len() == rest.len()
    &&& forall|i: int| 0 <= i < heads.len() && (#[trigger] heads[i]) is None ==> rest[i]@.len() == 0
}

/// The streams, each with its head taken off.
fn split_heads(streams: Vec<Vec<Item>>) -> (result: (Vec<Option<Item>>, Vec<Vec<Item>>))
    ensures
        aligned(result.0@, result.1@),
        remaining(result.0@, result.1@) == streams_view(streams@),
{
    let ghost all = streams@;
    let mut streams = reversed(streams);
    let mut heads: Vec<Option<Item>> = Vec::new();
    let mut rest: Vec<Vec<Item>> = Vec::new();
    while streams.len() > 0
        invariant
            heads@.len() + streams@.len() == all.len(),
            streams@ == all.skip(heads@.len() as int).reverse(),
            aligned(heads@, rest@),
            remaining(heads@, rest@) == streams_view(all).take(heads@.len() as int),
        decreases streams@.len(),
    {
        let stream = match streams.pop() {
            Some(stream) => stream,
            None => Vec::new(),
        };
        let ghost k = heads@.len() as int;
        let ghost before = remaining(heads@, rest@);
        assert(stream == all[k]);
        let mut tail = reversed(stream);
        let head = tail.pop();
        proof {
            if head is Some {
                assert(all[k]@ =~= seq![head->0] + tail@.reverse());
                assert(stream_view(all[k]@) =~= seq![item_view(head->0)] + stream_view(
                    tail@.reverse(),
                ));
            } else {
                assert(stream_view(all[k]@) =~= Seq::<ItemView>::empty());
            }
        }
        heads.push(head);
        rest.push(tail);
        proof {
            assert(remaining(heads@, rest@) =~= before.push(stream_view(all[k]@)));
            assert(streams_view(all).take(k + 1) =~= streams_view(all).take(k).push(
                stream_view(all[k]@),
            ));
            assert(streams@ =~= all.skip(k + 1).reverse());
        }
    }
    assert(streams_view(all).take(all.len() as int) =~= streams_view(all));
    (heads, rest)
}

/// Merges sorted streams into one whose order is that of one index holding
/// the claims of them all; a fact that several streams hold is yielded once.
/// The merge ends with the first error that it meets.
pub fn merge_grouped(streams: Vec<Vec<Item>>) -> (result: Vec<Item>)
    ensures
        stream_view(result@) == merged(streams_view(streams@)),
{
    let ghost all = streams_view(streams@);
    if streams.len() == 1 {
        let mut streams = streams;
        return streams.remove(0);
    }
    assert(all.len() != 1);
    let (mut heads, mut rest) = split_heads(streams);
    let mut run = Run::new();
    let mut result: Vec<Item> = Vec::new();
    let ghost mut taken: Seq<ItemView> = Seq::empty();
    let ghost mut start: int = 0;
    assert(stream_view(result@) =~= dedup(taken));
    assert(taken + interleave(all) =~= interleave(all));
    loop
        invariant_except_break
            aligned(heads@, rest@),
            interleave(all) == taken + interleave(remaining(heads@, rest@)),
            stream_view(result@) == dedup(taken),
            tracks(run@, taken, start),
        ensures
            stream_view(result@) == dedup(interleave(all)),
        decreases total(remaining(heads@, rest@)),
    {
        let ghost left = remaining(heads@, rest@);
        assert(self::heads(left) =~= heads_view(heads@));
        let i: usize = match next_head(&heads) {
            None => {
                assert(taken + Seq::<ItemView>::empty() =~= taken);
                break;
            },
            Some(i) => i,
        };
        let ghost old_heads = heads@;
        let ghost old_rest = rest@;
        let mut head: Option<Item> = rest[i].pop();
        std::mem::swap(&mut head, &mut heads[i]);
        assert(head == old_heads[i as int]);
        assert(left[i as int][0] == item_view(head->0));
        match head {
            None => {
                assert(false);
                break;
            },
            Some(Err(error)) => {
                proof {
                    let last = item_view(Err(error));
                    assert(interleave(left) =~= seq![last]);
                    assert(taken + seq![last] =~= taken.push(last));
                    assert(taken.push(last).drop_last() =~= taken);
                    assert(fresh(taken.push(last), taken.len() as int));
                    assert(stream_view(result@.push(Err(error))) =~= stream_view(result@).push(
                        last,
                    ));
                }
                result.push(Err(error));
                break;
            },
            Some(Ok(claim)) => {
                proof {
                    let item = Ok::<ClaimView, ArtifactErrorView>(claim@);
                    lemma_total_update(left, i as int, left[i as int].drop_first());
                    assert(remaining(heads@, rest@) =~= advance(left, i as int)) by {
                        match heads@[i as int] {
                            Some(next) => {
                                assert(stream_view(old_rest[i as int]@.reverse()) =~= seq![
                                    item_view(next),
                                ] + stream_view(rest@[i as int]@.reverse()));
                                assert(left[i as int].drop_first() =~= stream_view(
                                    old_rest[i as int]@.reverse(),
                                ));
                            },
                            None => {
                                assert(left[i as int].drop_first() =~= Seq::empty());
                            },
                        }
                    }
                    assert(interleave(left) == seq![item] + interleave(advance(left, i as int)));
                    assert(taken + (seq![item] + interleave(advance(left, i as int)))
                        =~= taken.push(item) + interleave(advance(left, i as int)));
                    lemma_tracks_step(run@, taken, start, claim@);
                    assert(taken.push(item).drop_last() =~= taken);
                    start = choose|after: int|
                        tracks(run@.after(claim@), taken.push(item), after);
                    taken = taken.push(item);
                }
                if run.take(&claim) {
                    assert(stream_view(result@.push(Ok(claim))) =~= stream_view(result@).push(
                        item_view(Ok(claim)),
                    ));
                    result.push(Ok(claim));
                }
            },
        }
    }
    result
}

} // verus!
