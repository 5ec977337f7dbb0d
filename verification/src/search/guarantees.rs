use vstd::prelude::*;
use crate::common::search::QueryHits;
use crate::search::merge::{
    absorb, accept_one, accepted_hits, fair_pass, fused_hits, group_of, leading, pool_of, quota,
    source_order, top_up,
};
use crate::search::outcome::{total_of, SearchOutcome};
use crate::search::ranking::{
    distinct_docs, has_doc, hit_doc, lemma_sort_docs, lemma_sort_sorted, sort_desc, sorted_desc,
};

verus! {

/// Taking up one more hit never makes a document occur twice, and adds at
/// most one hit.
pub proof fn lemma_accept_one(accepted: Seq<QueryHits>, hit: QueryHits)
    ensures
        distinct_docs(accepted) ==> distinct_docs(accept_one(accepted, hit)),
        accepted.len() <= accept_one(accepted, hit).len() <= accepted.len() + 1,
{
    if distinct_docs(accepted) && !has_doc(accepted, hit_doc(hit)) {
        let out = accepted.push(hit);
        assert forall|i: int, j: int| 0 <= i < j < out.len() implies hit_doc(out[i]) != hit_doc(
            out[j],
        ) by {
            assert(out[i] == accepted[i]);
            if j < accepted.len() {
                assert(out[j] == accepted[j]);
            }
        }
    }
}

/// Taking up candidates never makes a document occur twice, and adds at most
/// as many hits as there are candidates.
pub proof fn lemma_absorb(accepted: Seq<QueryHits>, candidates: Seq<QueryHits>)
    ensures
        distinct_docs(accepted) ==> distinct_docs(absorb(accepted, candidates)),
        accepted.len() <= absorb(accepted, candidates).len() <= accepted.len() + candidates.len(),
    decreases candidates.len(),
{
    if candidates.len() > 0 {
        lemma_absorb(accepted, candidates.drop_last());
        lemma_accept_one(absorb(accepted, candidates.drop_last()), candidates.last());
    }
}

/// Topping up never makes a document occur twice, and never goes beyond the
/// limit unless more than that were accepted before.
pub proof fn lemma_top_up(accepted: Seq<QueryHits>, candidates: Seq<QueryHits>, limit: nat)
    ensures
        distinct_docs(accepted) ==> distinct_docs(top_up(accepted, candidates, limit)),
        accepted.len() <= top_up(accepted, candidates, limit).len(),
        accepted.len() <= limit ==> top_up(accepted, candidates, limit).len() <= limit,
    decreases candidates.len(),
{
    if candidates.len() > 0 {
        lemma_top_up(accepted, candidates.drop_last(), limit);
        lemma_accept_one(top_up(accepted, candidates.drop_last(), limit), candidates.last());
    }
}

/// The fair pass holds no document twice, and of each backend at most its
/// share.
pub proof fn lemma_fair_pass(pool: Seq<QueryHits>, ids: Seq<Seq<char>>, share: nat)
    ensures
        distinct_docs(fair_pass(pool, ids, share)),
        fair_pass(pool, ids, share).len() <= ids.len() * share,
    decreases ids.len(),
{
    if ids.len() > 0 {
        let before = fair_pass(pool, ids.drop_last(), share);
        let best = leading(sort_desc(group_of(pool, ids.last())), share);
        lemma_fair_pass(pool, ids.drop_last(), share);
        lemma_absorb(before, best);
        assert(best.len() <= share);
        assert((ids.len() - 1) * share + share == ids.len() * share) by (nonlinear_arith);
    } else {
        assert(0 * share == 0) by (nonlinear_arith);
    }
}

/// The shares of all backends together do not exceed the page.
pub proof fn lemma_quota(size: u64, sources: nat)
    ensures
        sources * quota(size, sources) <= size,
{
    if sources > 0 {
        let n = sources as int;
        let s = size as int;
        assert(n * (s / n) <= s) by (nonlinear_arith)
            requires
                n > 0,
                s >= 0,
        ;
    } else {
        assert(0 * quota(size, sources) == 0) by (nonlinear_arith);
    }
}

/// No document is accepted twice, and no more hits are accepted than the
/// page holds.
pub proof fn lemma_accepted_hits(pool: Seq<QueryHits>, size: u64)
    ensures
        distinct_docs(accepted_hits(pool, size)),
        accepted_hits(pool, size).len() <= size,
{
    let ids = source_order(pool);
    let share = quota(size, ids.len());
    let fair = fair_pass(pool, ids, share);
    lemma_fair_pass(pool, ids, share);
    lemma_quota(size, ids.len());
    lemma_top_up(fair, sort_desc(pool), size as nat);
}

/// A fused page holds no document twice, holds at most `size` hits, none at
/// all where `size` is 0, and has its hits in descending order of rank.
pub proof fn lemma_fused_page(pool: Seq<QueryHits>, size: u64)
    ensures
        distinct_docs(fused_hits(pool, size)),
        fused_hits(pool, size).len() <= size,
        size == 0 ==> fused_hits(pool, size) == Seq::<QueryHits>::empty(),
        sorted_desc(fused_hits(pool, size)),
{
    let accepted = accepted_hits(pool, size);
    lemma_accepted_hits(pool, size);
    lemma_sort_docs(accepted);
    lemma_sort_sorted(accepted);
    if size == 0 {
        assert(fused_hits(pool, size) =~= Seq::<QueryHits>::empty());
    }
}

/// The outcomes of a round that are answers, in their order.
pub open spec fn answers_only(outcomes: Seq<SearchOutcome>) -> Seq<SearchOutcome>
    decreases outcomes.len(),
{
    if outcomes.len() == 0 {
        Seq::empty()
    } else if outcomes.last().is_completed() {
        answers_only(outcomes.drop_last()).push(outcomes.last())
    } else {
        answers_only(outcomes.drop_last())
    }
}

/// Failures leave no trace in the hits of a round: the pool, the page of any
/// size and the total are those of the round with its answers alone.
pub proof fn lemma_failures_leave_hits(outcomes: Seq<SearchOutcome>, size: u64)
    ensures
        pool_of(outcomes) == pool_of(answers_only(outcomes)),
        fused_hits(pool_of(outcomes), size) == fused_hits(pool_of(answers_only(outcomes)), size),
        total_of(outcomes) == total_of(answers_only(outcomes)),
    decreases outcomes.len(),
{
    if outcomes.len() > 0 {
        let rest = outcomes.drop_last();
        lemma_failures_leave_hits(rest, size);
        if outcomes.last().is_completed() {
            assert(answers_only(outcomes).drop_last() =~= answers_only(rest));
        } else {
            assert(pool_of(rest) + Seq::<QueryHits>::empty() =~= pool_of(rest));
        }
    }
}

} // verus!
