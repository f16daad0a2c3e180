//! What holds of merged streams as a whole.

use crate::artifact::{key_le, key_lt, law_key_order, ArtifactView, ClaimView};
use crate::error::ArtifactErrorView;
use crate::layer::{
    advance, dedup, fresh, heads, interleave, is_next, lemma_total_update, merged, next, repeats,
    total, ItemView,
};
use vstd::prelude::*;

verus! {

/// Whether no item of the stream is an error.
pub open spec fn sound(stream: Seq<ItemView>) -> bool {
    forall|i: int| 0 <= i < stream.len() ==> (#[trigger] stream[i]) is Ok
}

/// Whether the stream yields claims in the order of their keys.
pub open spec fn sorted(stream: Seq<ItemView>) -> bool {
    &&& sound(stream)
    &&& forall|i: int, j: int|
        0 <= i < j < stream.len() ==> key_le((#[trigger] stream[i])->Ok_0.key, (#[trigger] stream[j])->Ok_0.key)
}

/// Whether every stream is in the order of its keys.
pub open spec fn all_sorted(streams: Seq<Seq<ItemView>>) -> bool {
    forall|i: int| 0 <= i < streams.len() ==> sorted(#[trigger] streams[i])
}

/// Whether one of the streams yields the item.
pub open spec fn yields(streams: Seq<Seq<ItemView>>, item: ItemView) -> bool {
    exists|i: int| 0 <= i < streams.len() && (#[trigger] streams[i]).contains(item)
}

/// Whether each fact has one key: claims of the same fact agree on it.
pub open spec fn keyed(streams: Seq<Seq<ItemView>>) -> bool {
    forall|a: ItemView, b: ItemView|
        #![trigger yields(streams, a), yields(streams, b)]
        yields(streams, a) && yields(streams, b) && a is Ok && b is Ok && a->Ok_0.artifact
            == b->Ok_0.artifact ==> a->Ok_0.key == b->Ok_0.key
}

/// Whether the `i`-th stream is the first of those before the `n`-th whose
/// head has the least key.
spec fn least(streams: Seq<Seq<ItemView>>, n: int, i: int) -> bool {
    &&& 0 <= i < n
    &&& streams[i].len() > 0
    &&& forall|j: int|
        0 <= j < n && (#[trigger] streams[j]).len() > 0 ==> {
            &&& j < i ==> key_lt(streams[i][0]->Ok_0.key, streams[j][0]->Ok_0.key)
            &&& key_le(streams[i][0]->Ok_0.key, streams[j][0]->Ok_0.key)
        }
}

/// Where a stream has a head, one of the heads is the first with the least
/// key.
proof fn lemma_least(streams: Seq<Seq<ItemView>>, n: int, k: int) -> (i: int)
    requires
        0 <= k < n <= streams.len(),
        streams[k].len() > 0,
    ensures
        least(streams, n, i),
    decreases n,
{
    let m = n - 1;
    let b = streams[m][0]->Ok_0.key;
    law_key_order(b, b, b);
    if exists|k: int| 0 <= k < m && (#[trigger] streams[k]).len() > 0 {
        let k = choose|k: int| 0 <= k < m && (#[trigger] streams[k]).len() > 0;
        let i = lemma_least(streams, m, k);
        let a = streams[i][0]->Ok_0.key;
        law_key_order(a, b, a);
        law_key_order(b, a, b);
        if streams[m].len() > 0 && key_lt(b, a) {
            assert forall|j: int| 0 <= j < m && (#[trigger] streams[j]).len() > 0 implies key_lt(
                b,
                streams[j][0]->Ok_0.key,
            ) && key_le(b, streams[j][0]->Ok_0.key) by {
                let c = streams[j][0]->Ok_0.key;
                law_key_order(b, a, c);
                law_key_order(a, c, b);
                law_key_order(c, a, b);
                law_key_order(c, b, a);
                law_key_order(c, b, c);
            }
            assert(least(streams, n, m));
            m
        } else {
            assert(least(streams, n, i));
            i
        }
    } else {
        assert(least(streams, n, m));
        m
    }
}

/// Where a stream of sorted streams has not ended, the one with the least
/// head is next.
proof fn lemma_next_exists(streams: Seq<Seq<ItemView>>, k: int) -> (i: int)
    requires
        all_sorted(streams),
        0 <= k < streams.len(),
        streams[k].len() > 0,
    ensures
        is_next(heads(streams), i),
        next(heads(streams)) == Some(i),
        0 <= i < streams.len(),
        streams[i].len() > 0,
        streams[i][0] is Ok,
        least(streams, streams.len() as int, i),
{
    let first = lemma_least(streams, streams.len() as int, k);
    let all = heads(streams);
    assert(sorted(streams[first]));
    assert(is_next(all, first)) by {
        assert forall|j: int| 0 <= j < all.len() implies match #[trigger] all[j] {
            None => true,
            Some(Err(_)) => false,
            Some(Ok(other)) => if j < first {
                key_lt(streams[first][0]->Ok_0.key, other.key)
            } else {
                key_le(streams[first][0]->Ok_0.key, other.key)
            },
        } by {
            assert(sorted(streams[j]));
        }
    }
    let i = choose|i: int| is_next(all, i);
    crate::layer::lemma_next_unique(all, i, first);
    i
}

/// Taking the head of one stream leaves the streams sorted, and what they
/// yield is the head and what they yield then.
proof fn lemma_advance(streams: Seq<Seq<ItemView>>, i: int)
    requires
        all_sorted(streams),
        0 <= i < streams.len(),
        streams[i].len() > 0,
    ensures
        all_sorted(advance(streams, i)),
        total(advance(streams, i)) < total(streams),
        forall|item: ItemView| #[trigger]
            yields(streams, item) <==> item == streams[i][0] || yields(advance(streams, i), item),
{
    let rest = advance(streams, i);
    lemma_total_update(streams, i, streams[i].drop_first());
    assert forall|k: int| 0 <= k < rest.len() implies sorted(#[trigger] rest[k]) by {
        assert(sorted(streams[k]));
        if k == i {
            assert forall|a: int, b: int| 0 <= a < b < rest[k].len() implies key_le(
                (#[trigger] rest[k][a])->Ok_0.key,
                (#[trigger] rest[k][b])->Ok_0.key,
            ) by {
                assert(rest[k][a] == streams[k][a + 1]);
                assert(rest[k][b] == streams[k][b + 1]);
            }
            assert forall|a: int| 0 <= a < rest[k].len() implies (#[trigger] rest[k][a]) is Ok by {
                assert(rest[k][a] == streams[k][a + 1]);
            }
        }
    }
    assert forall|item: ItemView| #[trigger]
        yields(streams, item) <==> item == streams[i][0] || yields(rest, item) by {
        if yields(streams, item) && item != streams[i][0] {
            let k = choose|k: int| 0 <= k < streams.len() && (#[trigger] streams[k]).contains(item);
            let a = choose|a: int| 0 <= a < streams[k].len() && streams[k][a] == item;
            if k == i {
                assert(rest[k][a - 1] == item);
            } else {
                assert(rest[k][a] == item);
            }
            assert(rest[k].contains(item));
        }
        if yields(rest, item) {
            let k = choose|k: int| 0 <= k < rest.len() && (#[trigger] rest[k]).contains(item);
            let a = choose|a: int| 0 <= a < rest[k].len() && rest[k][a] == item;
            if k == i {
                assert(streams[k][a + 1] == item);
            } else {
                assert(streams[k][a] == item);
            }
            assert(streams[k].contains(item));
        }
        if item == streams[i][0] {
            assert(streams[i].contains(item));
        }
    }
}

/// Interleaving sorted streams yields what they yield, sorted.
proof fn lemma_interleave(streams: Seq<Seq<ItemView>>)
    requires
        all_sorted(streams),
    ensures
        sorted(interleave(streams)),
        forall|item: ItemView| #[trigger]
            interleave(streams).contains(item) <==> yields(streams, item),
    decreases total(streams),
{
    let items = interleave(streams);
    if exists|k: int| 0 <= k < streams.len() && (#[trigger] streams[k]).len() > 0 {
        let k = choose|k: int| 0 <= k < streams.len() && (#[trigger] streams[k]).len() > 0;
        let i = lemma_next_exists(streams, k);
        let head = streams[i][0];
        let rest = advance(streams, i);
        lemma_advance(streams, i);
        lemma_interleave(rest);
        let tail = interleave(rest);
        assert(items == seq![head] + tail);
        assert forall|item: ItemView| #[trigger] items.contains(item) <==> yields(
            streams,
            item,
        ) by {
            if items.contains(item) {
                let a = choose|a: int| 0 <= a < items.len() && items[a] == item;
                if a > 0 {
                    assert(tail[a - 1] == item);
                }
            }
            if item == head {
                assert(items[0] == item);
            }
            if tail.contains(item) {
                let a = choose|a: int| 0 <= a < tail.len() && tail[a] == item;
                assert(items[a + 1] == item);
            }
            assert(tail.contains(item) <==> yields(rest, item));
        }
        assert forall|a: int| 0 <= a < items.len() implies (#[trigger] items[a]) is Ok by {
            if a > 0 {
                assert(items[a] == tail[a - 1]);
            }
        }
        assert forall|a: int, b: int| 0 <= a < b < items.len() implies key_le(
            (#[trigger] items[a])->Ok_0.key,
            (#[trigger] items[b])->Ok_0.key,
        ) by {
            assert(items[b] == tail[b - 1]);
            if a > 0 {
                assert(items[a] == tail[a - 1]);
            } else {
                let item = items[b];
                assert(tail.contains(item));
                assert(yields(rest, item));
                assert(yields(streams, item));
                lemma_head_least(streams, i, item);
            }
        }
    } else {
        assert(items =~= Seq::<ItemView>::empty()) by {
            assert forall|i: int| !is_next(heads(streams), i) by {
                if 0 <= i < streams.len() {
                    assert(streams[i].len() == 0);
                    assert(heads(streams)[i] is None);
                }
            }
        }
        assert forall|item: ItemView| !#[trigger] yields(streams, item) by {
            if yields(streams, item) {
                let k = choose|k: int|
                    0 <= k < streams.len() && (#[trigger] streams[k]).contains(item);
                assert(streams[k].len() > 0);
            }
        }
    }
}

/// The least head is not after any item of sorted streams.
proof fn lemma_head_least(streams: Seq<Seq<ItemView>>, i: int, item: ItemView)
    requires
        all_sorted(streams),
        least(streams, streams.len() as int, i),
        yields(streams, item),
    ensures
        key_le(streams[i][0]->Ok_0.key, item->Ok_0.key),
{
    let k = choose|k: int| 0 <= k < streams.len() && (#[trigger] streams[k]).contains(item);
    let a = choose|a: int| 0 <= a < streams[k].len() && streams[k][a] == item;
    assert(sorted(streams[k]));
    let least = streams[i][0]->Ok_0.key;
    let head = streams[k][0]->Ok_0.key;
    assert(key_le(least, head));
    if a > 0 {
        assert(key_le(head, streams[k][a]->Ok_0.key));
        law_key_order(least, head, item->Ok_0.key);
    }
}

/// Dropping repeated facts keeps the order, and every fact is still there.
proof fn lemma_dedup(items: Seq<ItemView>)
    requires
        sorted(items),
    ensures
        sorted(dedup(items)),
        forall|item: ItemView| #[trigger] dedup(items).contains(item) ==> items.contains(item),
    decreases items.len(),
{
    if items.len() > 0 {
        let init = items.drop_last();
        let last = items.last();
        assert(sorted(init)) by {
            assert forall|a: int| 0 <= a < init.len() implies (#[trigger] init[a]) is Ok by {
                assert(init[a] == items[a]);
            }
            assert forall|a: int, b: int| 0 <= a < b < init.len() implies key_le(
                (#[trigger] init[a])->Ok_0.key,
                (#[trigger] init[b])->Ok_0.key,
            ) by {
                assert(init[a] == items[a]);
                assert(init[b] == items[b]);
            }
        }
        lemma_dedup(init);
        let kept = dedup(init);
        assert forall|item: ItemView| #[trigger] kept.contains(item) implies items.contains(
            item,
        ) by {
            assert(init.contains(item));
            let a = choose|a: int| 0 <= a < init.len() && init[a] == item;
            assert(items[a] == item);
        }
        if fresh(items, items.len() - 1) {
            let all = kept.push(last);
            assert forall|item: ItemView| #[trigger] all.contains(item) implies items.contains(
                item,
            ) by {
                let a = choose|a: int| 0 <= a < all.len() && all[a] == item;
                if a < kept.len() {
                    assert(kept[a] == item);
                    assert(kept.contains(item));
                } else {
                    assert(items[items.len() - 1] == item);
                }
            }
            assert forall|a: int| 0 <= a < all.len() implies (#[trigger] all[a]) is Ok by {
                if a < kept.len() {
                    assert(all[a] == kept[a]);
                } else {
                    assert(items[items.len() - 1] is Ok);
                }
            }
            assert forall|a: int, b: int| 0 <= a < b < all.len() implies key_le(
                (#[trigger] all[a])->Ok_0.key,
                (#[trigger] all[b])->Ok_0.key,
            ) by {
                assert(all[a] == kept[a]);
                if b < kept.len() {
                    assert(all[b] == kept[b]);
                } else {
                    assert(kept.contains(kept[a]));
                    assert(init.contains(kept[a]));
                    let c = choose|c: int| 0 <= c < init.len() && init[c] == kept[a];
                    assert(items[c] == kept[a]);
                    assert(items[items.len() - 1] == all[b]);
                }
            }
        }
    }
}

/// Whether the items hold a claim of the fact.
pub open spec fn states(items: Seq<ItemView>, artifact: ArtifactView) -> bool {
    exists|i: int| 0 <= i < items.len() && (#[trigger] items[i] matches Ok(claim) && claim.artifact
        == artifact)
}

/// Every fact is still stated after repeated ones were dropped.
proof fn lemma_dedup_states(items: Seq<ItemView>, artifact: ArtifactView)
    ensures
        states(items, artifact) == states(dedup(items), artifact),
    decreases items.len(),
{
    if items.len() > 0 {
        let init = items.drop_last();
        let last = items.last();
        let p = items.len() - 1;
        lemma_dedup_states(init, artifact);
        let kept = dedup(init);
        if states(init, artifact) {
            let i = choose|i: int|
                0 <= i < init.len() && (#[trigger] init[i] matches Ok(claim) && claim.artifact
                    == artifact);
            assert(items[i] == init[i]);
            let k = choose|k: int|
                0 <= k < kept.len() && (#[trigger] kept[k] matches Ok(claim) && claim.artifact
                    == artifact);
            assert(kept.push(last)[k] == kept[k]);
        } else {
            assert(states(items, artifact) == (last matches Ok(claim) && claim.artifact
                == artifact)) by {
                if states(items, artifact) {
                    let i = choose|i: int|
                        0 <= i < items.len() && (#[trigger] items[i] matches Ok(claim)
                            && claim.artifact == artifact);
                    if i < p {
                        assert(init[i] == items[i]);
                    }
                } else {
                    assert(items[p] == last);
                }
            }
            if last matches Ok(claim) && claim.artifact == artifact {
                assert(fresh(items, p)) by {
                    assert forall|q: int| 0 <= q < p implies !#[trigger] repeats(items, q, p) by {
                        assert(init[q] == items[q]);
                    }
                }
                assert(kept.push(last)[kept.len() as int] == last);
            } else if states(kept.push(last), artifact) {
                let i = choose|i: int|
                    0 <= i <= kept.len() && (#[trigger] kept.push(last)[i] matches Ok(claim)
                        && claim.artifact == artifact);
                if i < kept.len() {
                    assert(kept[i] == kept.push(last)[i]);
                }
            }
        }
    }
}

/// Whether no fact is stated twice.
pub open spec fn distinct(items: Seq<ItemView>) -> bool {
    forall|i: int, j: int|
        0 <= i < j < items.len() && (#[trigger] items[i]) is Ok && (#[trigger] items[j]) is Ok
            ==> items[i]->Ok_0.artifact != items[j]->Ok_0.artifact
}

/// Whether claims of the same fact have the same key.
spec fn one_key(items: Seq<ItemView>) -> bool {
    forall|i: int, j: int|
        0 <= i < items.len() && 0 <= j < items.len() && (#[trigger] items[i])->Ok_0.artifact == (
        #[trigger] items[j])->Ok_0.artifact ==> items[i]->Ok_0.key == items[j]->Ok_0.key
}

/// In sorted claims whose facts have one key each, no fact is left twice.
proof fn lemma_dedup_distinct(items: Seq<ItemView>)
    requires
        sorted(items),
        one_key(items),
    ensures
        distinct(dedup(items)),
    decreases items.len(),
{
    if items.len() > 0 {
        let init = items.drop_last();
        let last = items.last();
        let p = items.len() - 1;
        assert(sorted(init) && one_key(init)) by {
            assert forall|a: int| 0 <= a < init.len() implies (#[trigger] init[a]) is Ok by {
                assert(init[a] == items[a]);
            }
            assert forall|a: int, b: int| 0 <= a < b < init.len() implies key_le(
                (#[trigger] init[a])->Ok_0.key,
                (#[trigger] init[b])->Ok_0.key,
            ) by {
                assert(init[a] == items[a] && init[b] == items[b]);
            }
            assert forall|i: int, j: int|
                0 <= i < init.len() && 0 <= j < init.len() && (#[trigger] init[i])->Ok_0.artifact
                    == (#[trigger] init[j])->Ok_0.artifact implies init[i]->Ok_0.key
                == init[j]->Ok_0.key by {
                assert(init[i] == items[i] && init[j] == items[j]);
            }
        }
        lemma_dedup_distinct(init);
        lemma_dedup(init);
        let kept = dedup(init);
        if fresh(items, p) {
            let all = kept.push(last);
            assert forall|i: int, j: int|
                0 <= i < j < all.len() && (#[trigger] all[i]) is Ok && (#[trigger] all[j])
                    is Ok implies all[i]->Ok_0.artifact != all[j]->Ok_0.artifact by {
                assert(all[i] == kept[i]);
                if j < kept.len() {
                    assert(all[j] == kept[j]);
                } else if all[i]->Ok_0.artifact == last->Ok_0.artifact {
                    assert(kept.contains(kept[i]));
                    let q = choose|q: int| 0 <= q < init.len() && init[q] == kept[i];
                    assert(items[q] == init[q]);
                    assert(items[p] == last);
                    let key = last->Ok_0.key;
                    assert(items[q]->Ok_0.key == key);
                    assert forall|r: int| q <= r < p implies (#[trigger] items[r] matches Ok(
                        between,
                    ) && between.group() == last->Ok_0.group()) by {
                        let middle = items[r]->Ok_0.key;
                        if r > q {
                            assert(key_le(items[q]->Ok_0.key, middle));
                        }
                        assert(key_le(middle, items[p]->Ok_0.key));
                        law_key_order(middle, key, middle);
                    }
                    assert(repeats(items, q, p));
                }
            }
        }
    }
}

/// A merge of sorted streams is sorted: it yields claims as one index that
/// holds them all would.
pub proof fn law_merge_sorted(streams: Seq<Seq<ItemView>>)
    requires
        all_sorted(streams),
    ensures
        sorted(merged(streams)),
{
    if streams.len() == 1 {
        assert(sorted(streams[0]));
    } else {
        lemma_interleave(streams);
        lemma_dedup(interleave(streams));
    }
}

/// A merge of sorted streams states the facts that one of them states, and
/// no other.
pub proof fn law_merge_is_the_union(streams: Seq<Seq<ItemView>>, artifact: ArtifactView)
    requires
        all_sorted(streams),
    ensures
        states(merged(streams), artifact) <==> exists|i: int|
            0 <= i < streams.len() && states(#[trigger] streams[i], artifact),
{
    if streams.len() == 1 {
        if exists|i: int| 0 <= i < streams.len() && states(#[trigger] streams[i], artifact) {
            let i = choose|i: int| 0 <= i < streams.len() && states(#[trigger] streams[i], artifact);
            assert(i == 0);
        }
        if states(merged(streams), artifact) {
            assert(states(streams[0], artifact));
        }
    } else {
        let items = interleave(streams);
        lemma_interleave(streams);
        lemma_dedup_states(items, artifact);
        if states(items, artifact) {
            let k = choose|k: int|
                0 <= k < items.len() && (#[trigger] items[k] matches Ok(claim) && claim.artifact
                    == artifact);
            assert(items.contains(items[k]));
            assert(yields(streams, items[k]));
            let i = choose|i: int|
                0 <= i < streams.len() && (#[trigger] streams[i]).contains(items[k]);
            let a = choose|a: int| 0 <= a < streams[i].len() && streams[i][a] == items[k];
            assert(states(streams[i], artifact));
        }
        if exists|i: int| 0 <= i < streams.len() && states(#[trigger] streams[i], artifact) {
            let i = choose|i: int| 0 <= i < streams.len() && states(#[trigger] streams[i], artifact);
            let a = choose|a: int|
                0 <= a < streams[i].len() && (#[trigger] streams[i][a] matches Ok(claim)
                    && claim.artifact == artifact);
            assert(streams[i].contains(streams[i][a]));
            assert(yields(streams, streams[i][a]));
            assert(items.contains(streams[i][a]));
            let k = choose|k: int| 0 <= k < items.len() && items[k] == streams[i][a];
            assert(states(items, artifact));
        }
    }
}

/// A fact that several sorted streams state is one fact of their merge.
pub proof fn law_merge_states_facts_once(streams: Seq<Seq<ItemView>>)
    requires
        streams.len() != 1,
        all_sorted(streams),
        keyed(streams),
    ensures
        distinct(merged(streams)),
{
    let items = interleave(streams);
    lemma_interleave(streams);
    assert(one_key(items)) by {
        assert forall|i: int, j: int|
            0 <= i < items.len() && 0 <= j < items.len() && (#[trigger] items[i])->Ok_0.artifact
                == (#[trigger] items[j])->Ok_0.artifact implies items[i]->Ok_0.key
            == items[j]->Ok_0.key by {
            assert(items.contains(items[i]) && items.contains(items[j]));
            assert(yields(streams, items[i]) && yields(streams, items[j]));
        }
    }
    lemma_dedup_distinct(items);
}

/// In a sorted stream the claims of one group come one after another.
pub proof fn law_groups_are_consecutive(items: Seq<ItemView>, i: int, j: int, k: int)
    requires
        sorted(items),
        0 <= i < j < k < items.len(),
        items[i]->Ok_0.group() == items[k]->Ok_0.group(),
    ensures
        items[j]->Ok_0.group() == items[i]->Ok_0.group(),
{
    let a = items[i]->Ok_0.key;
    let b = items[j]->Ok_0.key;
    let c = items[k]->Ok_0.key;
    assert(key_le(a, b) && key_le(b, c));
    crate::bytes::lemma_lex_total(a.0, b.0);
    crate::bytes::lemma_lex_total(a.1, b.1);
}

/// Streams without any claim, or no stream at all, merge into nothing.
pub proof fn law_merge_of_nothing(streams: Seq<Seq<ItemView>>)
    requires
        forall|i: int| 0 <= i < streams.len() ==> (#[trigger] streams[i]).len() == 0,
    ensures
        merged(streams).len() == 0,
{
    if streams.len() != 1 {
        assert(all_sorted(streams));
        lemma_interleave(streams);
        let items = interleave(streams);
        if items.len() > 0 {
            assert(items.contains(items[0]));
            assert(yields(streams, items[0]));
        }
    }
}

/// The claims in strict order of their keys.
pub open spec fn strictly_sorted(claims: Seq<ClaimView>) -> bool {
    forall|i: int, j: int|
        0 <= i < j < claims.len() ==> key_lt((#[trigger] claims[i]).key, (#[trigger] claims[j]).key)
}

/// Two strictly sorted sequences of the same claims are the same.
proof fn lemma_strictly_sorted_unique(a: Seq<ClaimView>, b: Seq<ClaimView>)
    requires
        strictly_sorted(a),
        strictly_sorted(b),
        forall|claim: ClaimView| #[trigger] a.contains(claim) <==> b.contains(claim),
    ensures
        a == b,
    decreases a.len(),
{
    if a.len() == 0 {
        if b.len() > 0 {
            assert(b.contains(b[0]));
            assert(a.contains(b[0]));
        }
        assert(a =~= b);
    } else {
        assert(a.contains(a.last()));
        assert(b.len() > 0);
        assert(b.contains(b.last()));
        let x = a.last();
        let y = b.last();
        assert(a.contains(y) && b.contains(x));
        let i = choose|i: int| 0 <= i < a.len() && a[i] == y;
        let j = choose|j: int| 0 <= j < b.len() && b[j] == x;
        law_key_order(x.key, y.key, x.key);
        law_key_order(y.key, x.key, y.key);
        assert(x == y) by {
            if i < a.len() - 1 && j < b.len() - 1 {
                assert(key_lt(a[i].key, a[a.len() - 1].key));
                assert(key_lt(b[j].key, b[b.len() - 1].key));
            }
        }
        let c = a.drop_last();
        let d = b.drop_last();
        assert(strictly_sorted(c)) by {
            assert forall|i: int, j: int| 0 <= i < j < c.len() implies key_lt(
                (#[trigger] c[i]).key,
                (#[trigger] c[j]).key,
            ) by {
                assert(c[i] == a[i] && c[j] == a[j]);
            }
        }
        assert(strictly_sorted(d)) by {
            assert forall|i: int, j: int| 0 <= i < j < d.len() implies key_lt(
                (#[trigger] d[i]).key,
                (#[trigger] d[j]).key,
            ) by {
                assert(d[i] == b[i] && d[j] == b[j]);
            }
        }
        assert forall|claim: ClaimView| #[trigger] c.contains(claim) <==> d.contains(claim) by {
            if c.contains(claim) {
                let i = choose|i: int| 0 <= i < c.len() && c[i] == claim;
                assert(a[i] == claim);
                assert(a.contains(claim));
                let j = choose|j: int| 0 <= j < b.len() && b[j] == claim;
                if j == b.len() - 1 {
                    assert(key_lt(a[i].key, a[a.len() - 1].key));
                    law_key_order(x.key, x.key, x.key);
                }
                assert(d[j] == claim);
            }
            if d.contains(claim) {
                let j = choose|j: int| 0 <= j < d.len() && d[j] == claim;
                assert(b[j] == claim);
                assert(b.contains(claim));
                assert(a.contains(claim));
                let i = choose|i: int| 0 <= i < a.len() && a[i] == claim;
                if i == a.len() - 1 {
                    assert(key_lt(b[j].key, b[b.len() - 1].key));
                    law_key_order(x.key, x.key, x.key);
                }
                assert(c[i] == claim);
            }
        }
        lemma_strictly_sorted_unique(c, d);
        assert(a =~= c.push(x));
        assert(b =~= d.push(y));
    }
}

/// Merging sorted streams yields what one index that holds the claims of
/// them all would yield: where `tree` is the strictly sorted sequence of
/// just those claims, the merge is `tree`.
pub proof fn law_merge_as_one_tree(streams: Seq<Seq<ItemView>>, tree: Seq<ClaimView>)
    requires
        streams.len() != 1,
        all_sorted(streams),
        strictly_sorted(tree),
        forall|claim: ClaimView| #[trigger] tree.contains(claim) <==> yields(streams, Ok(claim)),
        keyed(streams),
    ensures
        merged(streams) == Seq::new(
            tree.len(),
            |i: int| Ok::<ClaimView, ArtifactErrorView>(tree[i]),
        ),
{
    let items = merged(streams);
    law_merge_sorted(streams);
    law_merge_states_facts_once(streams);
    lemma_interleave(streams);
    lemma_dedup(interleave(streams));
    let claims = Seq::new(items.len(), |i: int| items[i]->Ok_0);
    assert forall|claim: ClaimView| #[trigger] claims.contains(claim) implies tree.contains(
        claim,
    ) by {
        let i = choose|i: int| 0 <= i < claims.len() && claims[i] == claim;
        assert(items[i] is Ok);
        assert(items.contains(items[i]));
        assert(interleave(streams).contains(items[i]));
        assert(yields(streams, items[i]));
        assert(items[i] == Ok::<ClaimView, ArtifactErrorView>(claim));
    }
    assert forall|claim: ClaimView| #[trigger] tree.contains(claim) implies claims.contains(
        claim,
    ) by {
        assert(yields(streams, Ok(claim)));
        law_merge_is_the_union(streams, claim.artifact);
        let s = choose|s: int|
            0 <= s < streams.len() && (#[trigger] streams[s]).contains(Ok(claim));
        let a = choose|a: int| 0 <= a < streams[s].len() && streams[s][a]
            == Ok::<ClaimView, ArtifactErrorView>(claim);
        assert(states(streams[s], claim.artifact));
        assert(states(items, claim.artifact));
        let i = choose|i: int|
            0 <= i < items.len() && (#[trigger] items[i] matches Ok(other) && other.artifact
                == claim.artifact);
        assert(items.contains(items[i]));
        assert(interleave(streams).contains(items[i]));
        assert(yields(streams, items[i]));
        assert(claims[i] == claim);
    }
    assert forall|i: int, j: int| 0 <= i < j < claims.len() implies key_lt(
        (#[trigger] claims[i]).key,
        (#[trigger] claims[j]).key,
    ) by {
        assert(items[i] is Ok && items[j] is Ok);
        assert(key_le(items[i]->Ok_0.key, items[j]->Ok_0.key));
        law_key_order(claims[i].key, claims[j].key, claims[i].key);
        if claims[i].key == claims[j].key {
            assert(claims.contains(claims[i]) && claims.contains(claims[j]));
            assert(tree.contains(claims[i]) && tree.contains(claims[j]));
            let x = choose|x: int| 0 <= x < tree.len() && tree[x] == claims[i];
            let y = choose|y: int| 0 <= y < tree.len() && tree[y] == claims[j];
            law_key_order(claims[i].key, claims[i].key, claims[i].key);
            if x < y {
                assert(key_lt(tree[x].key, tree[y].key));
            } else if y < x {
                assert(key_lt(tree[y].key, tree[x].key));
            }
            assert(x == y);
        }
    }
    lemma_strictly_sorted_unique(claims, tree);
    assert(items =~= Seq::new(tree.len(), |i: int| Ok::<ClaimView, ArtifactErrorView>(tree[i])));
}

/// One stream alone is passed on as it is.
pub proof fn law_one_stream_is_passed_on(stream: Seq<ItemView>)
    ensures
        merged(seq![stream]) == stream,
{
}

/// What comes next: nothing just where every stream has ended; an error before
/// any claim, and the first of them; else a claim whose key no other comes
/// before, and the first such.
pub proof fn law_what_comes_next(heads: Seq<Option<ItemView>>, j: int)
    requires
        0 <= j < heads.len(),
        heads[j] is Some,
    ensures
        next(heads) matches Some(i) && 0 <= i < heads.len() && heads[i] is Some && {
            &&& heads[j]->0 is Err ==> heads[i]->0 is Err && i <= j
            &&& heads[i]->0 is Ok ==> {
                &&& heads[j]->0 is Ok
                &&& !key_lt(heads[j]->0->Ok_0.key, heads[i]->0->Ok_0.key)
                &&& j < i ==> key_lt(heads[i]->0->Ok_0.key, heads[j]->0->Ok_0.key)
            }
        },
{
    let i = lemma_some_head_is_next(heads, j);
    let found = choose|k: int| is_next(heads, k);
    crate::layer::lemma_next_unique(heads, i, found);
    assert(next(heads) == Some(i));
    match (heads[i], heads[j]) {
        (Some(Err(_)), Some(Err(_))) => {
            assert(i <= j);
        },
        (Some(Ok(least)), Some(Ok(other))) => {
            assert(key_le(least.key, other.key) || key_lt(least.key, other.key));
            law_key_order(least.key, other.key, least.key);
        },
        _ => {},
    }
}

/// Where a stream has not ended, one of the heads is next.
proof fn lemma_some_head_is_next(heads: Seq<Option<ItemView>>, k: int) -> (i: int)
    requires
        0 <= k < heads.len(),
        heads[k] is Some,
    ensures
        is_next(heads, i),
{
    if exists|j: int| 0 <= j < heads.len() && (#[trigger] heads[j] matches Some(Err(_))) {
        let j = choose|j: int| 0 <= j < heads.len() && (#[trigger] heads[j] matches Some(Err(_)));
        lemma_first_error(heads, j)
    } else {
        let streams = Seq::new(
            heads.len(),
            |j: int|
                match heads[j] {
                    Some(item) => seq![item],
                    None => Seq::empty(),
                },
        );
        let i = lemma_least(streams, streams.len() as int, k);
        assert(is_next(heads, i)) by {
            assert(streams[i].len() > 0);
            assert(heads[i] is Some);
            assert(streams[i][0] == heads[i]->0);
            assert forall|j: int| 0 <= j < heads.len() implies match #[trigger] heads[j] {
                None => true,
                Some(Err(_)) => false,
                Some(Ok(other)) => if j < i {
                    key_lt(heads[i]->0->Ok_0.key, other.key)
                } else {
                    key_le(heads[i]->0->Ok_0.key, other.key)
                },
            } by {
                if heads[j] is Some {
                    assert(streams[j].len() > 0);
                    assert(streams[j][0] == heads[j]->0);
                }
            }
        }
        i
    }
}

proof fn lemma_first_error(heads: Seq<Option<ItemView>>, j: int) -> (i: int)
    requires
        0 <= j < heads.len(),
        heads[j] matches Some(Err(_)),
    ensures
        is_next(heads, i),
    decreases j,
{
    if exists|k: int| 0 <= k < j && (#[trigger] heads[k] matches Some(Err(_))) {
        let k = choose|k: int| 0 <= k < j && (#[trigger] heads[k] matches Some(Err(_)));
        lemma_first_error(heads, k)
    } else {
        j
    }
}

/// Whether one of the streams holds an error.
pub open spec fn fails(streams: Seq<Seq<ItemView>>) -> bool {
    exists|i: int, k: int|
        0 <= i < streams.len() && 0 <= k < streams[i].len() && #[trigger] streams[i][k] is Err
}

/// No error is lost: a merge of streams one of which holds an error ends with
/// an error that one of them holds, and every claim before it is of a stream.
pub proof fn law_errors_are_not_lost(streams: Seq<Seq<ItemView>>)
    requires
        streams.len() != 1,
        fails(streams),
    ensures
        merged(streams).len() > 0,
        merged(streams).last() is Err,
        yields(streams, merged(streams).last()),
        sound(merged(streams).drop_last()),
{
    lemma_interleave_fails(streams);
    let items = interleave(streams);
    let last = items.last();
    assert(fresh(items, items.len() - 1));
    assert(merged(streams) == dedup(items.drop_last()).push(last));
    lemma_dedup_sound(items.drop_last());
    assert(merged(streams).drop_last() =~= dedup(items.drop_last()));
}

proof fn lemma_dedup_sound(items: Seq<ItemView>)
    requires
        sound(items),
    ensures
        sound(dedup(items)),
    decreases items.len(),
{
    if items.len() > 0 {
        let init = items.drop_last();
        assert forall|i: int| 0 <= i < init.len() implies (#[trigger] init[i]) is Ok by {
            assert(init[i] == items[i]);
        }
        lemma_dedup_sound(init);
        assert(items[items.len() - 1] is Ok);
        let left = dedup(init);
        let more = left.push(items.last());
        assert forall|i: int| 0 <= i < more.len() implies (#[trigger] more[i]) is Ok by {
            if i < left.len() {
                assert(more[i] == left[i]);
            }
        }
    }
}

proof fn lemma_interleave_fails(streams: Seq<Seq<ItemView>>)
    requires
        fails(streams),
    ensures
        interleave(streams).len() > 0,
        interleave(streams).last() is Err,
        yields(streams, interleave(streams).last()),
        sound(interleave(streams).drop_last()),
    decreases total(streams),
{
    let (s, k) = choose|i: int, k: int|
        0 <= i < streams.len() && 0 <= k < streams[i].len() && #[trigger] streams[i][k] is Err;
    let all = heads(streams);
    assert(all[s] is Some);
    law_what_comes_next(all, s);
    let i = next(all)->0;
    assert(streams[i].len() > 0 && all[i] == Some(streams[i][0]));
    let items = interleave(streams);
    if streams[i][0] is Err {
        assert(items =~= seq![streams[i][0]]);
        assert(streams[i].contains(streams[i][0]));
        assert(items.drop_last() =~= Seq::empty());
    } else {
        let rest = advance(streams, i);
        lemma_total_update(streams, i, streams[i].drop_first());
        assert(fails(rest)) by {
            if s == i {
                assert(k > 0);
                assert(rest[s][k - 1] == streams[s][k]);
                assert(rest[s][k - 1] is Err);
            } else {
                assert(rest[s][k] is Err);
            }
        }
        lemma_interleave_fails(rest);
        let more = interleave(rest);
        assert(items == seq![streams[i][0]] + more);
        assert(items.last() == more.last());
        let j = choose|j: int| 0 <= j < rest.len() && (#[trigger] rest[j]).contains(more.last());
        let a = choose|a: int| 0 <= a < rest[j].len() && rest[j][a] == more.last();
        if j == i {
            assert(streams[i][a + 1] == more.last());
        } else {
            assert(streams[j][a] == more.last());
        }
        assert(streams[j].contains(more.last()));
        let init = items.drop_last();
        assert forall|p: int| 0 <= p < init.len() implies (#[trigger] init[p]) is Ok by {
            if p > 0 {
                assert(init[p] == more.drop_last()[p - 1]);
            }
        }
    }
}

/// A claim is taken once in a run: after it was seen it is known for as long as
/// claims of its group follow, and a claim of another group starts anew. A run
/// in which nothing was seen knows nothing.
pub proof fn law_runs_remember_their_group(
    run: crate::layer::RunView,
    seen: ClaimView,
    claim: ClaimView,
)
    ensures
        run.after(seen).holds(claim) <==> (seen.group() == claim.group() && (seen.artifact
            == claim.artifact || (run.group == Some(claim.group()) && run.seen.contains(
            claim.artifact,
        )))),
        run.group is None ==> !run.holds(claim),
{
}

/// A merge takes what comes next, one head at a time, and ends with the first
/// error that it takes.
pub proof fn law_merges_take_head_after_head(streams: Seq<Seq<ItemView>>, i: int)
    requires
        next(heads(streams)) == Some(i),
    ensures
        0 <= i < streams.len() && streams[i].len() > 0,
        streams[i][0] is Err ==> interleave(streams) == seq![streams[i][0]],
        streams[i][0] is Ok ==> interleave(streams) == seq![streams[i][0]] + interleave(
            streams.update(i, streams[i].drop_first()),
        ),
{
    let all = heads(streams);
    let found = choose|k: int| is_next(all, k);
    assert(is_next(all, i));
}

/// Of what a merge takes an item is left out just where one before it states
/// the same fact and only claims of the same group stand between them.
pub proof fn law_repeated_facts_are_left_out(items: Seq<ItemView>, claim: ClaimView)
    ensures
        ({
            let repeated = exists|q: int|
                0 <= q < items.len() && (#[trigger] items[q] matches Ok(earlier)
                    && earlier.artifact == claim.artifact) && forall|r: int|
                    q <= r < items.len() ==> (#[trigger] items[r] matches Ok(between)
                        && between.group() == claim.group());
            dedup(items.push(Ok(claim))) == (if repeated {
                dedup(items)
            } else {
                dedup(items).push(Ok(claim))
            })
        }),
        dedup(Seq::<ItemView>::empty()).len() == 0,
{
    let more = items.push(Ok(claim));
    let p = items.len() as int;
    assert(more.drop_last() =~= items);
    assert forall|q: int| 0 <= q < p implies #[trigger] repeats(more, q, p) == ((
    items[q] matches Ok(earlier) && earlier.artifact == claim.artifact) && forall|r: int|
        q <= r < p ==> (#[trigger] items[r] matches Ok(between) && between.group()
            == claim.group())) by {
        assert(more[q] == items[q]);
        if repeats(more, q, p) {
            assert forall|r: int| q <= r < p implies (#[trigger] items[r] matches Ok(between)
                && between.group() == claim.group()) by {
                assert(more[r] == items[r]);
            }
        }
        if forall|r: int|
            q <= r < p ==> (#[trigger] items[r] matches Ok(between) && between.group()
                == claim.group()) {
            assert forall|r: int| q <= r < p implies (#[trigger] more[r] matches Ok(between)
                && between.group() == claim.group()) by {
                assert(more[r] == items[r]);
            }
        }
    }
    if exists|q: int|
        0 <= q < items.len() && (#[trigger] items[q] matches Ok(earlier) && earlier.artifact
            == claim.artifact) && forall|r: int|
            q <= r < items.len() ==> (#[trigger] items[r] matches Ok(between) && between.group()
                == claim.group()) {
        let q = choose|q: int|
            0 <= q < items.len() && (#[trigger] items[q] matches Ok(earlier) && earlier.artifact
                == claim.artifact) && forall|r: int|
                q <= r < items.len() ==> (#[trigger] items[r] matches Ok(between)
                    && between.group() == claim.group());
        assert(repeats(more, q, p));
    } else {
        assert(fresh(more, p)) by {
            assert forall|q: int| 0 <= q < p implies !#[trigger] repeats(more, q, p) by {
                assert(items[q] == more[q]);
            }
        }
    }
}

} // verus!
