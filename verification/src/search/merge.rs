use vstd::prelude::*;
use vstd::string::StrSliceExecFns;
use crate::common::search::{QueryHits, QueryResponse};
use crate::search::outcome::SearchOutcome;
use crate::search::ranking::{has_doc, hit_doc, sort_desc, sort_hits};

verus! {

/// The id of the backend that a hit comes from; empty where the hit names
/// none.
pub open spec fn hit_source(hit: QueryHits) -> Seq<char> {
    match hit.source {
        Some(identity) => identity.id@,
        None => Seq::empty(),
    }
}

/// The hits of one response, each with the response's backend as its source.
pub open spec fn response_hits(response: QueryResponse) -> Seq<QueryHits> {
    Seq::new(
        response.hits@.len(),
        |i: int|
            QueryHits {
                source: Some(response.source),
                score: response.hits@[i].1,
                document: response.hits@[i].0,
            },
    )
}

/// The hits that one outcome brings: those of the answer, none for a failure.
pub open spec fn outcome_hits(outcome: SearchOutcome) -> Seq<QueryHits> {
    match outcome {
        SearchOutcome::Completed(response) => response_hits(response),
        _ => Seq::empty(),
    }
}

/// All hits of a round, in the order of its outcomes.
pub open spec fn pool_of(outcomes: Seq<SearchOutcome>) -> Seq<QueryHits>
    decreases outcomes.len(),
{
    if outcomes.len() == 0 {
        Seq::empty()
    } else {
        pool_of(outcomes.drop_last()) + outcome_hits(outcomes.last())
    }
}

/// The ids of the backends that have a hit in the pool, each once, in the
/// order in which they first occur.
pub open spec fn source_order(pool: Seq<QueryHits>) -> Seq<Seq<char>>
    decreases pool.len(),
{
    if pool.len() == 0 {
        Seq::empty()
    } else {
        let before = source_order(pool.drop_last());
        let id = hit_source(pool.last());
        if before.contains(id) {
            before
        } else {
            before.push(id)
        }
    }
}

/// The hits of the pool that come from the backend `id`, in their order.
pub open spec fn group_of(pool: Seq<QueryHits>, id: Seq<char>) -> Seq<QueryHits>
    decreases pool.len(),
{
    if pool.len() == 0 {
        Seq::empty()
    } else if hit_source(pool.last()) == id {
        group_of(pool.drop_last(), id).push(pool.last())
    } else {
        group_of(pool.drop_last(), id)
    }
}

/// `accepted` with `hit` behind it, unless a hit for the same document is
/// accepted already.
pub open spec fn accept_one(accepted: Seq<QueryHits>, hit: QueryHits) -> Seq<QueryHits> {
    if has_doc(accepted, hit_doc(hit)) {
        accepted
    } else {
        accepted.push(hit)
    }
}

/// `accepted` after the candidates were taken up one by one, in their order.
pub open spec fn absorb(accepted: Seq<QueryHits>, candidates: Seq<QueryHits>) -> Seq<QueryHits>
    decreases candidates.len(),
{
    if candidates.len() == 0 {
        accepted
    } else {
        accept_one(absorb(accepted, candidates.drop_last()), candidates.last())
    }
}

/// `accepted` after the candidates were taken up one by one, in their order,
/// for as long as fewer than `limit` hits are accepted.
pub open spec fn top_up(accepted: Seq<QueryHits>, candidates: Seq<QueryHits>, limit: nat) -> Seq<
    QueryHits,
>
    decreases candidates.len(),
{
    if candidates.len() == 0 {
        accepted
    } else {
        let before = top_up(accepted, candidates.drop_last(), limit);
        if before.len() >= limit {
            before
        } else {
            accept_one(before, candidates.last())
        }
    }
}

/// How many hits each backend may contribute before the others had their
/// turn: an equal share of `size`, rounded down.
pub open spec fn quota(size: u64, sources: nat) -> nat {
    if sources > 0 {
        size as nat / sources
    } else {
        size as nat
    }
}

/// The first `count` hits, or all of them where there are fewer.
pub open spec fn leading(hits: Seq<QueryHits>, count: nat) -> Seq<QueryHits> {
    if count <= hits.len() {
        hits.take(count as int)
    } else {
        hits
    }
}

/// What the backends `ids` contribute in turn: of each the `share` best hits,
/// without those for a document that is accepted already.
pub open spec fn fair_pass(pool: Seq<QueryHits>, ids: Seq<Seq<char>>, share: nat) -> Seq<QueryHits>
    decreases ids.len(),
{
    if ids.len() == 0 {
        Seq::empty()
    } else {
        absorb(
            fair_pass(pool, ids.drop_last(), share),
            leading(sort_desc(group_of(pool, ids.last())), share),
        )
    }
}

/// The hits accepted from the pool for a page of `size`, before they are put
/// in their final order: the fair pass over the backends in the order of
/// their first hit, then, where that leaves room, the best of all hits.
pub open spec fn accepted_hits(pool: Seq<QueryHits>, size: u64) -> Seq<QueryHits> {
    let ids = source_order(pool);
    let fair = fair_pass(pool, ids, quota(size, ids.len()));
    if fair.len() < size {
        top_up(fair, sort_desc(pool), size as nat)
    } else {
        fair
    }
}

/// The page of `size` hits that the pool gives: the accepted hits, best
/// first.
pub open spec fn fused_hits(pool: Seq<QueryHits>, size: u64) -> Seq<QueryHits> {
    sort_desc(accepted_hits(pool, size))
}

/// The texts of a sequence of strings.
pub open spec fn texts(ids: Seq<String>) -> Seq<Seq<char>> {
    Seq::new(ids.len(), |i: int| ids[i]@)
}

/// Tells whether a hit comes from the backend `id`.
pub fn source_matches(hit: &QueryHits, id: &String) -> (same: bool)
    ensures
        same == (hit_source(*hit) == id@),
{
    match &hit.source {
        Some(identity) => identity.id == *id,
        None => {
            let length = id.as_str().unicode_len();
            proof {
                if length == 0 {
                    assert(id@ =~= Seq::<char>::empty());
                }
            }
            length == 0
        },
    }
}

/// Tells whether some hit is for the document `id`.
pub fn contains_doc(hits: &Vec<QueryHits>, id: &String) -> (found: bool)
    ensures
        found == has_doc(hits@, id@),
{
    let mut next: usize = 0;
    while next < hits.len()
        invariant
            next <= hits.len(),
            forall|i: int| 0 <= i < next ==> hit_doc(#[trigger] hits@[i]) != id@,
        decreases hits.len() - next,
    {
        if hits[next].document.id == *id {
            return true;
        }
        next = next + 1;
    }
    false
}

/// Adds the hits of one answer to the pool.
pub fn extend_pool(pool: &mut Vec<QueryHits>, response: &QueryResponse)
    ensures
        final(pool)@ == old(pool)@ + response_hits(*response),
{
    let mut next: usize = 0;
    while next < response.hits.len()
        invariant
            next <= response.hits.len(),
            pool@ == old(pool)@ + response_hits(*response).take(next as int),
        decreases response.hits.len() - next,
    {
        let hit = QueryHits {
            source: Some(response.source.clone()),
            score: response.hits[next].1,
            document: response.hits[next].0.clone(),
        };
        pool.push(hit);
        next = next + 1;
        proof {
            let all = response_hits(*response);
            assert(all.take(next as int) =~= all.take(next - 1).push(all[next - 1]));
            assert(pool@ =~= old(pool)@ + all.take(next as int));
        }
    }
    proof {
        assert(response_hits(*response).take(next as int) =~= response_hits(*response));
    }
}

/// Gathers the hits of all answers of a round into one pool.
pub fn collect_pool(outcomes: &Vec<SearchOutcome>) -> (pool: Vec<QueryHits>)
    ensures
        pool@ == pool_of(outcomes@),
{
    let mut pool: Vec<QueryHits> = Vec::new();
    let mut next: usize = 0;
    while next < outcomes.len()
        invariant
            next <= outcomes.len(),
            pool@ == pool_of(outcomes@.take(next as int)),
        decreases outcomes.len() - next,
    {
        proof {
            assert(outcomes@.take(next + 1).drop_last() =~= outcomes@.take(next as int));
        }
        match &outcomes[next] {
            SearchOutcome::Completed(response) => {
                extend_pool(&mut pool, response);
            },
            _ => {
                assert(pool@ + Seq::<QueryHits>::empty() =~= pool@);
            },
        }
        next = next + 1;
    }
    proof {
        assert(outcomes@.take(next as int) =~= outcomes@);
    }
    pool
}

/// Lists the backends that have a hit in the pool, each once, in the order in
/// which they first occur.
pub fn distinct_sources(pool: &Vec<QueryHits>) -> (ids: Vec<String>)
    ensures
        texts(ids@) == source_order(pool@),
{
    let mut ids: Vec<String> = Vec::new();
    let mut next: usize = 0;
    while next < pool.len()
        invariant
            next <= pool.len(),
            texts(ids@) == source_order(pool@.take(next as int)),
        decreases pool.len() - next,
    {
        let hit = &pool[next];
        let mut known = false;
        let mut at: usize = 0;
        while at < ids.len()
            invariant
                at <= ids.len(),
                known == exists|i: int| 0 <= i < at && texts(ids@)[i] == hit_source(*hit),
            decreases ids.len() - at,
        {
            if source_matches(hit, &ids[at]) {
                known = true;
                assert(texts(ids@)[at as int] == hit_source(*hit));
            }
            at = at + 1;
        }
        proof {
            assert(pool@.take(next + 1).drop_last() =~= pool@.take(next as int));
            assert(known == texts(ids@).contains(hit_source(*hit)));
        }
        if !known {
            let id = match &hit.source {
                Some(identity) => identity.id.clone(),
                None => String::new(),
            };
            proof {
                assert(texts(ids@.push(id)) =~= texts(ids@).push(hit_source(*hit)));
            }
            ids.push(id);
        }
        next = next + 1;
    }
    proof {
        assert(pool@.take(next as int) =~= pool@);
    }
    ids
}

/// Picks the hits of the pool that come from the backend `id`.
pub fn group_hits(pool: &Vec<QueryHits>, id: &String) -> (group: Vec<QueryHits>)
    ensures
        group@ == group_of(pool@, id@),
{
    let mut group: Vec<QueryHits> = Vec::new();
    let mut next: usize = 0;
    while next < pool.len()
        invariant
            next <= pool.len(),
            group@ == group_of(pool@.take(next as int), id@),
        decreases pool.len() - next,
    {
        proof {
            assert(pool@.take(next + 1).drop_last() =~= pool@.take(next as int));
        }
        if source_matches(&pool[next], id) {
            group.push(pool[next].clone());
        }
        next = next + 1;
    }
    proof {
        assert(pool@.take(next as int) =~= pool@);
    }
    group
}

/// Takes up the first `count` candidates, one by one, leaving out each whose
/// document is accepted already.
pub fn absorb_hits(accepted: &mut Vec<QueryHits>, candidates: &Vec<QueryHits>, count: usize)
    requires
        count <= candidates.len(),
    ensures
        final(accepted)@ == absorb(old(accepted)@, candidates@.take(count as int)),
{
    let mut next: usize = 0;
    while next < count
        invariant
            next <= count <= candidates.len(),
            accepted@ == absorb(old(accepted)@, candidates@.take(next as int)),
        decreases count - next,
    {
        proof {
            assert(candidates@.take(next + 1).drop_last() =~= candidates@.take(next as int));
        }
        if !contains_doc(accepted, &candidates[next].document.id) {
            accepted.push(candidates[next].clone());
        }
        next = next + 1;
    }
}

/// Takes up candidates, one by one, until `limit` hits are accepted, leaving
/// out each whose document is accepted already.
pub fn top_up_hits(accepted: &mut Vec<QueryHits>, candidates: &Vec<QueryHits>, limit: u64)
    ensures
        final(accepted)@ == top_up(old(accepted)@, candidates@, limit as nat),
{
    let mut next: usize = 0;
    while next < candidates.len()
        invariant
            next <= candidates.len(),
            accepted@ == top_up(old(accepted)@, candidates@.take(next as int), limit as nat),
        decreases candidates.len() - next,
    {
        proof {
            assert(candidates@.take(next + 1).drop_last() =~= candidates@.take(next as int));
        }
        if (accepted.len() as u64) < limit {
            if !contains_doc(accepted, &candidates[next].document.id) {
                accepted.push(candidates[next].clone());
            }
        }
        next = next + 1;
    }
    proof {
        assert(candidates@.take(next as int) =~= candidates@);
    }
}

/// Accepts hits from the pool for a page of `size`: first each backend's
/// share, then, where that leaves room, the best of all hits.
pub fn accept_hits(pool: &Vec<QueryHits>, size: u64) -> (accepted: Vec<QueryHits>)
    ensures
        accepted@ == accepted_hits(pool@, size),
{
    let ids = distinct_sources(pool);
    let share: u64 = if ids.len() > 0 {
        size / (ids.len() as u64)
    } else {
        size
    };
    assert(share as nat == quota(size, texts(ids@).len()));
    let mut accepted: Vec<QueryHits> = Vec::new();
    let mut turn: usize = 0;
    while turn < ids.len()
        invariant
            turn <= ids.len(),
            accepted@ == fair_pass(pool@, texts(ids@).take(turn as int), share as nat),
        decreases ids.len() - turn,
    {
        let group = group_hits(pool, &ids[turn]);
        let sorted = sort_hits(&group);
        let count: usize = if (sorted.len() as u64) <= share {
            sorted.len()
        } else {
            share as usize
        };
        proof {
            assert(texts(ids@).take(turn + 1).drop_last() =~= texts(ids@).take(turn as int));
            assert(texts(ids@).take(turn + 1).last() == ids@[turn as int]@);
            assert(sorted@.take(count as int) =~= leading(sorted@, share as nat));
        }
        absorb_hits(&mut accepted, &sorted, count);
        turn = turn + 1;
    }
    proof {
        assert(texts(ids@).take(turn as int) =~= texts(ids@));
    }
    if (accepted.len() as u64) < size {
        let ranked = sort_hits(pool);
        top_up_hits(&mut accepted, &ranked, size);
    }
    accepted
}

} // verus!
