use vstd::prelude::*;
use crate::common::search::QueryHits;
use crate::search::fairness::{
    drawn_from, lemma_fair_pass_groups, lemma_fair_pass_keeps, lemma_group_of_joined,
    lemma_source_order_unique,
};
use crate::search::guarantees::lemma_accepted_hits;
use crate::search::merge::{
    accepted_hits, fair_pass, fused_hits, group_of, hit_source, leading, quota,
    source_order, top_up,
};
use crate::search::ranking::{
    distinct_docs, has_doc, hit_doc, hit_rank, insert_desc, insert_point, lemma_insert_point,
    lemma_sort_docs, lemma_sort_permutes, lemma_sort_sorted, sort_desc,
};

verus! {

/// Topping up keeps what was accepted, in its place, and takes its new hits
/// from the candidates.
pub proof fn lemma_top_up_extends(
    accepted: Seq<QueryHits>,
    candidates: Seq<QueryHits>,
    limit: nat,
)
    ensures
        accepted.len() <= top_up(accepted, candidates, limit).len(),
        top_up(accepted, candidates, limit).take(accepted.len() as int) == accepted,
        forall|i: int|
            accepted.len() <= i < top_up(accepted, candidates, limit).len()
                ==> candidates.contains(#[trigger] top_up(accepted, candidates, limit)[i]),
    decreases candidates.len(),
{
    let out = top_up(accepted, candidates, limit);
    if candidates.len() > 0 {
        let rest = candidates.drop_last();
        let before = top_up(accepted, rest, limit);
        lemma_top_up_extends(accepted, rest, limit);
        assert(out.take(accepted.len() as int) =~= before.take(accepted.len() as int));
        assert forall|i: int| accepted.len() <= i < out.len() implies candidates.contains(
            #[trigger] out[i],
        ) by {
            if i < before.len() {
                assert(out[i] == before[i]);
                assert(rest.contains(before[i]));
                let j = choose|j: int| 0 <= j < rest.len() && rest[j] == before[i];
                assert(candidates[j] == rest[j]);
            } else {
                assert(out[i] == candidates[candidates.len() - 1]);
            }
        }
    } else {
        assert(out.take(accepted.len() as int) =~= accepted);
    }
}

/// Topping up stops only at the limit: it either reaches the limit, or takes
/// up the document of every candidate.
pub proof fn lemma_top_up_covers(accepted: Seq<QueryHits>, candidates: Seq<QueryHits>, limit: nat)
    ensures
        top_up(accepted, candidates, limit).len() >= limit || forall|i: int|
            0 <= i < candidates.len() ==> has_doc(
                top_up(accepted, candidates, limit),
                hit_doc(#[trigger] candidates[i]),
            ),
    decreases candidates.len(),
{
    if candidates.len() > 0 {
        let rest = candidates.drop_last();
        let last = candidates.last();
        let before = top_up(accepted, rest, limit);
        let out = top_up(accepted, candidates, limit);
        lemma_top_up_covers(accepted, rest, limit);
        if before.len() < limit {
            assert forall|i: int| 0 <= i < candidates.len() implies has_doc(
                out,
                hit_doc(#[trigger] candidates[i]),
            ) by {
                if i < rest.len() {
                    assert(candidates[i] == rest[i]);
                    let k = choose|k: int|
                        0 <= k < before.len() && hit_doc(#[trigger] before[k]) == hit_doc(rest[i]);
                    assert(out[k] == before[k]);
                } else {
                    if has_doc(before, hit_doc(last)) {
                        assert(out == before);
                    } else {
                        assert(out[before.len() as int] == last);
                    }
                }
            }
        }
    }
}

/// The hits that are accepted are hits of the pool.
pub proof fn lemma_accepted_from_pool(pool: Seq<QueryHits>, size: u64)
    ensures
        drawn_from(accepted_hits(pool, size), pool),
{
    broadcast use vstd::seq_lib::group_to_multiset_ensures;

    let ids = source_order(pool);
    let fair = fair_pass(pool, ids, quota(size, ids.len()));
    let accepted = accepted_hits(pool, size);
    lemma_fair_pass_keeps(pool, ids, quota(size, ids.len()));
    if fair.len() < size {
        let ranked = sort_desc(pool);
        lemma_top_up_extends(fair, ranked, size as nat);
        lemma_sort_permutes(pool);
        assert forall|i: int| 0 <= i < accepted.len() implies pool.contains(
            #[trigger] accepted[i],
        ) by {
            if i < fair.len() {
                assert(accepted.take(fair.len() as int)[i] == accepted[i]);
                assert(pool.contains(fair[i]));
            } else {
                assert(ranked.contains(accepted[i]));
                assert(ranked.to_multiset().count(accepted[i]) > 0);
            }
        }
    }
}

/// Every hit of a page is a hit that some backend returned.
pub proof fn lemma_page_from_pool(pool: Seq<QueryHits>, size: u64)
    ensures
        drawn_from(fused_hits(pool, size), pool),
{
    broadcast use vstd::seq_lib::group_to_multiset_ensures;

    let accepted = accepted_hits(pool, size);
    let page = fused_hits(pool, size);
    lemma_accepted_from_pool(pool, size);
    lemma_sort_permutes(accepted);
    assert forall|i: int| 0 <= i < page.len() implies pool.contains(#[trigger] page[i]) by {
        assert(page.contains(page[i]));
        assert(page.to_multiset().count(page[i]) > 0);
        assert(accepted.contains(page[i]));
        let j = choose|j: int| 0 <= j < accepted.len() && accepted[j] == page[i];
        assert(pool.contains(accepted[j]));
    }
}

/// A page is as full as the pool allows: it holds `size` hits, or a hit for
/// every document that some backend returned.
pub proof fn lemma_page_complete(pool: Seq<QueryHits>, size: u64)
    ensures
        fused_hits(pool, size).len() == size || forall|doc: Seq<char>|
            has_doc(pool, doc) ==> has_doc(fused_hits(pool, size), doc),
{
    let ids = source_order(pool);
    let fair = fair_pass(pool, ids, quota(size, ids.len()));
    let accepted = accepted_hits(pool, size);
    let ranked = sort_desc(pool);
    lemma_accepted_hits(pool, size);
    lemma_sort_sorted(accepted);
    lemma_sort_docs(accepted);
    lemma_sort_docs(pool);
    if fair.len() < size {
        lemma_top_up_covers(fair, ranked, size as nat);
        if accepted.len() < size {
            assert forall|doc: Seq<char>| has_doc(pool, doc) implies has_doc(
                fused_hits(pool, size),
                doc,
            ) by {
                assert(has_doc(ranked, doc));
                let i = choose|i: int|
                    0 <= i < ranked.len() && hit_doc(#[trigger] ranked[i]) == doc;
                assert(has_doc(accepted, hit_doc(ranked[i])));
            }
        }
    }
}

/// The hits of a backend among hits with one more put in: one more where
/// the new hit comes from the backend, else as many as before.
pub proof fn lemma_group_of_insert(hits: Seq<QueryHits>, hit: QueryHits, id: Seq<char>)
    ensures
        group_of(insert_desc(hits, hit), id).len() == group_of(hits, id).len() + if hit_source(hit)
            == id {
            1nat
        } else {
            0nat
        },
{
    let place = insert_point(hits, hit_rank(hit)) as int;
    lemma_insert_point(hits, hit_rank(hit));
    let front = hits.take(place);
    let back = hits.skip(place);
    assert(hits =~= front + back);
    assert(insert_desc(hits, hit) =~= (front + seq![hit]) + back);
    lemma_group_of_joined(front, back, id);
    lemma_group_of_joined(front + seq![hit], back, id);
    lemma_group_of_joined(front, seq![hit], id);
    assert(seq![hit].drop_last() =~= Seq::<QueryHits>::empty());
    assert(seq![hit].last() == hit);
    reveal_with_fuel(group_of, 2);
}

/// Sorting leaves every backend with as many hits as it had.
pub proof fn lemma_group_of_sorted(hits: Seq<QueryHits>, id: Seq<char>)
    ensures
        group_of(sort_desc(hits), id).len() == group_of(hits, id).len(),
    decreases hits.len(),
{
    if hits.len() > 0 {
        lemma_group_of_sorted(hits.drop_last(), id);
        lemma_group_of_insert(sort_desc(hits.drop_last()), hits.last(), id);
    }
}

/// Fairness of a page. Where no document of the pool occurs twice, a page
/// holds of every backend with at least one hit no fewer hits than its
/// share: an equal part of the page, rounded down, or all of the backend's
/// hits where it has fewer.
pub proof fn lemma_page_fair_share(pool: Seq<QueryHits>, size: u64, id: Seq<char>)
    requires
        distinct_docs(pool),
        source_order(pool).contains(id),
    ensures
        group_of(fused_hits(pool, size), id).len() >= leading(
            sort_desc(group_of(pool, id)),
            quota(size, source_order(pool).len()),
        ).len(),
        group_of(pool, id).len() >= size as nat / source_order(pool).len() ==> group_of(
            fused_hits(pool, size),
            id,
        ).len() >= size as nat / source_order(pool).len(),
{
    let ids = source_order(pool);
    let share = quota(size, ids.len());
    let fair = fair_pass(pool, ids, share);
    let accepted = accepted_hits(pool, size);
    lemma_source_order_unique(pool);
    lemma_fair_pass_groups(pool, ids, share, id);
    lemma_sort_sorted(group_of(pool, id));
    if fair.len() < size {
        lemma_top_up_extends(fair, sort_desc(pool), size as nat);
        let extra = accepted.skip(fair.len() as int);
        assert(accepted =~= accepted.take(fair.len() as int) + extra);
        lemma_group_of_joined(fair, extra, id);
    }
    lemma_group_of_sorted(accepted, id);
}

} // verus!
