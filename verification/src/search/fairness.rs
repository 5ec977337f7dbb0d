use vstd::prelude::*;
use crate::common::search::QueryHits;
use crate::search::merge::{
    absorb, accept_one, fair_pass, group_of, hit_source, leading, quota, source_order,
};
use crate::search::ranking::{
    distinct_docs, has_doc, hit_doc, lemma_sort_docs, lemma_sort_permutes, lemma_sort_sorted,
    sort_desc,
};

verus! {

/// Every hit of `hits` is a hit of `pool`.
pub open spec fn drawn_from(hits: Seq<QueryHits>, pool: Seq<QueryHits>) -> bool {
    forall|i: int| 0 <= i < hits.len() ==> pool.contains(#[trigger] hits[i])
}

/// Every hit of `hits` comes from one of the backends `ids`.
pub open spec fn sources_among(hits: Seq<QueryHits>, ids: Seq<Seq<char>>) -> bool {
    forall|i: int| 0 <= i < hits.len() ==> ids.contains(hit_source(#[trigger] hits[i]))
}

/// No backend is listed twice in the order of the backends.
pub proof fn lemma_source_order_unique(pool: Seq<QueryHits>)
    ensures
        source_order(pool).no_duplicates(),
    decreases pool.len(),
{
    if pool.len() > 0 {
        lemma_source_order_unique(pool.drop_last());
    }
}

/// The hits of a group are hits of the pool, come from the group's backend,
/// and are for different documents where those of the pool are.
pub proof fn lemma_group(pool: Seq<QueryHits>, id: Seq<char>)
    ensures
        drawn_from(group_of(pool, id), pool),
        sources_among(group_of(pool, id), seq![id]),
        forall|doc: Seq<char>| has_doc(group_of(pool, id), doc) ==> has_doc(pool, doc),
        distinct_docs(pool) ==> distinct_docs(group_of(pool, id)),
    decreases pool.len(),
{
    let group = group_of(pool, id);
    if pool.len() > 0 {
        let rest = pool.drop_last();
        let last = pool.last();
        let before = group_of(rest, id);
        lemma_group(rest, id);
        assert forall|i: int| 0 <= i < group.len() implies pool.contains(#[trigger] group[i])
            && seq![id].contains(hit_source(group[i])) by {
            if i < before.len() {
                assert(group[i] == before[i]);
                assert(rest.contains(before[i]));
                let j = choose|j: int| 0 <= j < rest.len() && rest[j] == before[i];
                assert(pool[j] == before[i]);
                assert(seq![id].contains(hit_source(before[i])));
            } else {
                assert(group[i] == last);
                assert(pool[pool.len() - 1] == last);
                assert(seq![id][0] == id);
            }
        }
        assert forall|doc: Seq<char>| has_doc(group, doc) implies has_doc(pool, doc) by {
            let i = choose|i: int| 0 <= i < group.len() && hit_doc(#[trigger] group[i]) == doc;
            let j = choose|j: int| 0 <= j < pool.len() && pool[j] == group[i];
            assert(hit_doc(pool[j]) == doc);
        }
        if distinct_docs(pool) {
            assert(distinct_docs(rest)) by {
                assert forall|i: int, j: int| 0 <= i < j < rest.len() implies hit_doc(rest[i])
                    != hit_doc(rest[j]) by {
                    assert(rest[i] == pool[i] && rest[j] == pool[j]);
                }
            }
            if hit_source(last) == id {
                assert forall|i: int, j: int| 0 <= i < j < group.len() implies hit_doc(group[i])
                    != hit_doc(group[j]) by {
                    assert(group[i] == before[i]);
                    if j < before.len() {
                        assert(group[j] == before[j]);
                    } else {
                        if hit_doc(before[i]) == hit_doc(last) {
                            assert(has_doc(before, hit_doc(last)));
                            assert(has_doc(rest, hit_doc(last)));
                            let k = choose|k: int|
                                0 <= k < rest.len() && hit_doc(#[trigger] rest[k]) == hit_doc(last);
                            assert(rest[k] == pool[k]);
                            assert(hit_doc(pool[k]) != hit_doc(pool[pool.len() - 1]));
                        }
                    }
                }
            }
        }
    }
}

/// The best hits of a group are hits of the pool, come from the group's
/// backend, and are for different documents where those of the pool are.
pub proof fn lemma_best_of_group(pool: Seq<QueryHits>, id: Seq<char>, share: nat)
    ensures
        drawn_from(leading(sort_desc(group_of(pool, id)), share), pool),
        sources_among(leading(sort_desc(group_of(pool, id)), share), seq![id]),
        distinct_docs(pool) ==> distinct_docs(leading(sort_desc(group_of(pool, id)), share)),
{
    broadcast use vstd::seq_lib::group_to_multiset_ensures;

    let group = group_of(pool, id);
    let sorted = sort_desc(group);
    let best = leading(sorted, share);
    lemma_group(pool, id);
    lemma_sort_permutes(group);
    lemma_sort_docs(group);
    lemma_sort_sorted(group);
    assert forall|i: int| 0 <= i < best.len() implies pool.contains(#[trigger] best[i])
        && seq![id].contains(hit_source(best[i])) by {
        assert(best[i] == sorted[i]);
        assert(sorted.contains(sorted[i]));
        assert(sorted.to_multiset().count(sorted[i]) > 0);
        assert(group.contains(sorted[i]));
        let j = choose|j: int| 0 <= j < group.len() && group[j] == sorted[i];
        assert(pool.contains(group[j]));
        assert(seq![id].contains(hit_source(group[j])));
    }
    if distinct_docs(pool) {
        assert forall|i: int, j: int| 0 <= i < j < best.len() implies hit_doc(best[i])
            != hit_doc(best[j]) by {
            assert(best[i] == sorted[i] && best[j] == sorted[j]);
        }
    }
}

/// Taking up candidates for documents that are all new, and all different,
/// puts all of them behind what was accepted.
pub proof fn lemma_absorb_all(accepted: Seq<QueryHits>, candidates: Seq<QueryHits>)
    requires
        distinct_docs(candidates),
        forall|i: int|
            0 <= i < candidates.len() ==> !has_doc(accepted, hit_doc(#[trigger] candidates[i])),
    ensures
        absorb(accepted, candidates) == accepted + candidates,
    decreases candidates.len(),
{
    if candidates.len() > 0 {
        let rest = candidates.drop_last();
        let last = candidates.last();
        assert(distinct_docs(rest)) by {
            assert forall|i: int, j: int| 0 <= i < j < rest.len() implies hit_doc(rest[i])
                != hit_doc(rest[j]) by {
                assert(rest[i] == candidates[i] && rest[j] == candidates[j]);
            }
        }
        assert forall|i: int| 0 <= i < rest.len() implies !has_doc(
            accepted,
            hit_doc(#[trigger] rest[i]),
        ) by {
            assert(rest[i] == candidates[i]);
        }
        lemma_absorb_all(accepted, rest);
        let before = accepted + rest;
        if has_doc(before, hit_doc(last)) {
            let k = choose|k: int|
                0 <= k < before.len() && hit_doc(#[trigger] before[k]) == hit_doc(last);
            if k < accepted.len() {
                assert(before[k] == accepted[k]);
                assert(has_doc(accepted, hit_doc(candidates[candidates.len() - 1])));
            } else {
                assert(before[k] == candidates[k - accepted.len()]);
                assert(hit_doc(candidates[k - accepted.len()]) != hit_doc(
                    candidates[candidates.len() - 1],
                ));
            }
        }
        assert(accept_one(before, last) =~= accepted + candidates);
    } else {
        assert(accepted + candidates =~= accepted);
    }
}

/// Taking up candidates yields hits of the pool, from the backends at hand,
/// where what was accepted and the candidates are such.
pub proof fn lemma_absorb_keeps(
    accepted: Seq<QueryHits>,
    candidates: Seq<QueryHits>,
    pool: Seq<QueryHits>,
    ids: Seq<Seq<char>>,
)
    requires
        drawn_from(accepted, pool),
        drawn_from(candidates, pool),
        sources_among(accepted, ids),
        sources_among(candidates, ids),
    ensures
        drawn_from(absorb(accepted, candidates), pool),
        sources_among(absorb(accepted, candidates), ids),
    decreases candidates.len(),
{
    if candidates.len() > 0 {
        let rest = candidates.drop_last();
        assert forall|i: int| 0 <= i < rest.len() implies pool.contains(#[trigger] rest[i])
            && ids.contains(hit_source(rest[i])) by {
            assert(rest[i] == candidates[i]);
        }
        lemma_absorb_keeps(accepted, rest, pool, ids);
        let before = absorb(accepted, rest);
        let out = absorb(accepted, candidates);
        assert forall|i: int| 0 <= i < out.len() implies pool.contains(#[trigger] out[i])
            && ids.contains(hit_source(out[i])) by {
            if i < before.len() {
                assert(out[i] == before[i]);
            } else {
                assert(out[i] == candidates[candidates.len() - 1]);
            }
        }
    }
}

/// The fair pass yields hits of the pool, from the backends that had their
/// turn.
pub proof fn lemma_fair_pass_keeps(pool: Seq<QueryHits>, ids: Seq<Seq<char>>, share: nat)
    ensures
        drawn_from(fair_pass(pool, ids, share), pool),
        sources_among(fair_pass(pool, ids, share), ids),
    decreases ids.len(),
{
    if ids.len() > 0 {
        let rest = ids.drop_last();
        let before = fair_pass(pool, rest, share);
        let best = leading(sort_desc(group_of(pool, ids.last())), share);
        lemma_fair_pass_keeps(pool, rest, share);
        lemma_best_of_group(pool, ids.last(), share);
        assert forall|i: int| 0 <= i < before.len() implies ids.contains(
            hit_source(#[trigger] before[i]),
        ) by {
            let j = choose|j: int| 0 <= j < rest.len() && rest[j] == hit_source(before[i]);
            assert(ids[j] == rest[j]);
        }
        assert forall|i: int| 0 <= i < best.len() implies ids.contains(
            hit_source(#[trigger] best[i]),
        ) by {
            assert(seq![ids.last()].contains(hit_source(best[i])));
            assert(hit_source(best[i]) == ids[ids.len() - 1]);
        }
        lemma_absorb_keeps(before, best, pool, ids);
    }
}

/// The group of a backend in hits put together is its group in the one part
/// followed by its group in the other.
pub proof fn lemma_group_of_joined(first: Seq<QueryHits>, second: Seq<QueryHits>, id: Seq<char>)
    ensures
        group_of(first + second, id) == group_of(first, id) + group_of(second, id),
    decreases second.len(),
{
    if second.len() > 0 {
        lemma_group_of_joined(first, second.drop_last(), id);
        assert((first + second).drop_last() =~= first + second.drop_last());
        assert((first + second).last() == second.last());
        assert(group_of(first + second, id) =~= group_of(first, id) + group_of(second, id));
    } else {
        assert(first + second =~= first);
        assert(group_of(first, id) + group_of(second, id) =~= group_of(first, id));
    }
}

/// Hits that all come from one backend are that backend's group, and leave
/// the group of any other backend empty.
pub proof fn lemma_group_of_one_source(hits: Seq<QueryHits>, from: Seq<char>, id: Seq<char>)
    requires
        sources_among(hits, seq![from]),
    ensures
        from == id ==> group_of(hits, id) == hits,
        from != id ==> group_of(hits, id) == Seq::<QueryHits>::empty(),
    decreases hits.len(),
{
    if hits.len() > 0 {
        let rest = hits.drop_last();
        assert forall|i: int| 0 <= i < rest.len() implies seq![from].contains(
            hit_source(#[trigger] rest[i]),
        ) by {
            assert(rest[i] == hits[i]);
        }
        lemma_group_of_one_source(rest, from, id);
        assert(seq![from].contains(hit_source(hits[hits.len() - 1])));
        assert(hit_source(hits.last()) == from);
        if from == id {
            assert(rest.push(hits.last()) =~= hits);
        }
    }
}

/// Where no document of the pool occurs twice, the fair pass is the best
/// hits of each backend, one backend after the other.
pub proof fn lemma_fair_pass_joins(pool: Seq<QueryHits>, ids: Seq<Seq<char>>, share: nat)
    requires
        distinct_docs(pool),
        ids.no_duplicates(),
        ids.len() > 0,
    ensures
        fair_pass(pool, ids, share) == fair_pass(pool, ids.drop_last(), share) + leading(
            sort_desc(group_of(pool, ids.last())),
            share,
        ),
{
    let rest = ids.drop_last();
    let last = ids.last();
    let before = fair_pass(pool, rest, share);
    let best = leading(sort_desc(group_of(pool, last)), share);
    lemma_fair_pass_keeps(pool, rest, share);
    lemma_best_of_group(pool, last, share);
    assert(!rest.contains(last)) by {
        if rest.contains(last) {
            let j = choose|j: int| 0 <= j < rest.len() && rest[j] == last;
            assert(ids[j] == rest[j]);
            assert(ids[ids.len() - 1] == last);
        }
    }
    assert forall|i: int| 0 <= i < best.len() implies !has_doc(
        before,
        hit_doc(#[trigger] best[i]),
    ) by {
        if has_doc(before, hit_doc(best[i])) {
            let k = choose|k: int|
                0 <= k < before.len() && hit_doc(#[trigger] before[k]) == hit_doc(best[i]);
            assert(pool.contains(before[k]));
            assert(pool.contains(best[i]));
            let a = choose|a: int| 0 <= a < pool.len() && pool[a] == before[k];
            let b = choose|b: int| 0 <= b < pool.len() && pool[b] == best[i];
            if a < b {
                assert(hit_doc(pool[a]) != hit_doc(pool[b]));
            } else if b < a {
                assert(hit_doc(pool[b]) != hit_doc(pool[a]));
            }
            assert(before[k] == best[i]);
            assert(rest.contains(hit_source(before[k])));
            assert(seq![last].contains(hit_source(best[i])));
            assert(hit_source(best[i]) == last);
        }
    }
    lemma_absorb_all(before, best);
}

/// Fairness. Where no document of the pool occurs twice, the fair pass holds
/// of every backend that had its turn exactly its best hits, as many as its
/// share or all where it has fewer, and nothing of any other backend.
pub proof fn lemma_fair_pass_groups(
    pool: Seq<QueryHits>,
    ids: Seq<Seq<char>>,
    share: nat,
    id: Seq<char>,
)
    requires
        distinct_docs(pool),
        ids.no_duplicates(),
    ensures
        ids.contains(id) ==> group_of(fair_pass(pool, ids, share), id) == leading(
            sort_desc(group_of(pool, id)),
            share,
        ),
        !ids.contains(id) ==> group_of(fair_pass(pool, ids, share), id) == Seq::<
            QueryHits,
        >::empty(),
    decreases ids.len(),
{
    if ids.len() > 0 {
        let rest = ids.drop_last();
        let last = ids.last();
        let before = fair_pass(pool, rest, share);
        let best = leading(sort_desc(group_of(pool, last)), share);
        assert(rest.no_duplicates()) by {
            assert forall|i: int, j: int|
                0 <= i < rest.len() && 0 <= j < rest.len() && i != j implies rest[i]
                != rest[j] by {
                assert(rest[i] == ids[i] && rest[j] == ids[j]);
            }
        }
        lemma_fair_pass_groups(pool, rest, share, id);
        lemma_fair_pass_joins(pool, ids, share);
        lemma_group_of_joined(before, best, id);
        lemma_best_of_group(pool, last, share);
        lemma_group_of_one_source(best, last, id);
        assert(ids[ids.len() - 1] == last);
        if rest.contains(id) {
            let j = choose|j: int| 0 <= j < rest.len() && rest[j] == id;
            assert(ids[j] == rest[j]);
            assert(id != last);
            assert(before + Seq::<QueryHits>::empty() =~= before);
            assert(group_of(before, id) + Seq::<QueryHits>::empty() =~= group_of(before, id));
        } else if id == last {
            assert(Seq::<QueryHits>::empty() + best =~= best);
        } else {
            assert(!ids.contains(id)) by {
                if ids.contains(id) {
                    let j = choose|j: int| 0 <= j < ids.len() && ids[j] == id;
                    assert(rest[j] == ids[j]);
                }
            }
            assert(Seq::<QueryHits>::empty() + Seq::<QueryHits>::empty() =~= Seq::<
                QueryHits,
            >::empty());
        }
    }
}

/// Fairness of a round. Where no document of the pool occurs twice, every
/// backend with at least one hit gets into the fair pass with its best
/// hits: an equal share of the page, rounded down, or all of its hits where
/// it has fewer.
pub proof fn lemma_fair_share(pool: Seq<QueryHits>, size: u64, id: Seq<char>)
    requires
        distinct_docs(pool),
        source_order(pool).contains(id),
    ensures
        group_of(
            fair_pass(pool, source_order(pool), quota(size, source_order(pool).len())),
            id,
        ) == leading(sort_desc(group_of(pool, id)), quota(size, source_order(pool).len())),
        group_of(pool, id).len() >= size as nat / source_order(pool).len() ==> group_of(
            fair_pass(pool, source_order(pool), quota(size, source_order(pool).len())),
            id,
        ).len() == size as nat / source_order(pool).len(),
{
    let ids = source_order(pool);
    lemma_source_order_unique(pool);
    lemma_fair_pass_groups(pool, ids, quota(size, ids.len()), id);
    lemma_sort_sorted(group_of(pool, id));
}

} // verus!
