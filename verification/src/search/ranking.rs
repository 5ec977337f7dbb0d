use vstd::prelude::*;
use crate::common::search::QueryHits;
use crate::score::{rank_of, score_rank};

verus! {

/// The rank of a hit: the rank of its score.
pub open spec fn hit_rank(hit: QueryHits) -> u64 {
    rank_of(hit.score)
}

/// The identity of a hit's document.
pub open spec fn hit_doc(hit: QueryHits) -> Seq<char> {
    hit.document.id@
}

/// Hits are in descending order of rank.
pub open spec fn sorted_desc(hits: Seq<QueryHits>) -> bool {
    forall|i: int, j: int| 0 <= i < j < hits.len() ==> hit_rank(hits[i]) >= hit_rank(hits[j])
}

/// Some hit of `hits` is for the document `doc`.
pub open spec fn has_doc(hits: Seq<QueryHits>, doc: Seq<char>) -> bool {
    exists|i: int| 0 <= i < hits.len() && hit_doc(#[trigger] hits[i]) == doc
}

/// No two hits are for the same document.
pub open spec fn distinct_docs(hits: Seq<QueryHits>) -> bool {
    forall|i: int, j: int| 0 <= i < j < hits.len() ==> hit_doc(hits[i]) != hit_doc(hits[j])
}

/// Where a hit of the given rank goes into `hits`: behind the last hit whose
/// rank is at least as large.
pub open spec fn insert_point(hits: Seq<QueryHits>, rank: u64) -> nat
    decreases hits.len(),
{
    if hits.len() == 0 {
        0
    } else if hit_rank(hits.last()) >= rank {
        hits.len()
    } else {
        insert_point(hits.drop_last(), rank)
    }
}

/// `hits` with `hit` put in at its insert point.
pub open spec fn insert_desc(hits: Seq<QueryHits>, hit: QueryHits) -> Seq<QueryHits> {
    hits.insert(insert_point(hits, hit_rank(hit)) as int, hit)
}

/// `hits` in descending order of rank; hits of equal rank keep their order.
pub open spec fn sort_desc(hits: Seq<QueryHits>) -> Seq<QueryHits>
    decreases hits.len(),
{
    if hits.len() == 0 {
        Seq::empty()
    } else {
        insert_desc(sort_desc(hits.drop_last()), hits.last())
    }
}

/// The insert point lies within the sequence, every hit from it on ranks
/// lower, and the hit just before it does not.
pub proof fn lemma_insert_point(hits: Seq<QueryHits>, rank: u64)
    ensures
        insert_point(hits, rank) <= hits.len(),
        forall|i: int| insert_point(hits, rank) <= i < hits.len() ==> hit_rank(hits[i]) < rank,
        insert_point(hits, rank) > 0 ==> hit_rank(hits[insert_point(hits, rank) - 1]) >= rank,
    decreases hits.len(),
{
    if hits.len() > 0 && hit_rank(hits.last()) < rank {
        let rest = hits.drop_last();
        lemma_insert_point(rest, rank);
        assert forall|i: int| insert_point(hits, rank) <= i < hits.len() implies hit_rank(hits[i])
            < rank by {
            if i < rest.len() {
                assert(rest[i] == hits[i]);
            }
        }
    }
}

/// A position that parts the hits into those that rank at least `rank` and
/// those that rank lower is the insert point.
pub proof fn lemma_insert_point_unique(hits: Seq<QueryHits>, rank: u64, p: int)
    requires
        0 <= p <= hits.len(),
        forall|i: int| 0 <= i < p ==> hit_rank(hits[i]) >= rank,
        forall|i: int| p <= i < hits.len() ==> hit_rank(hits[i]) < rank,
    ensures
        insert_point(hits, rank) == p,
    decreases hits.len(),
{
    if hits.len() > 0 {
        if hit_rank(hits.last()) >= rank {
            if p < hits.len() {
                assert(hit_rank(hits[hits.len() - 1]) < rank);
            }
        } else {
            if p == hits.len() {
                assert(hit_rank(hits[hits.len() - 1]) >= rank);
            }
            lemma_insert_point_unique(hits.drop_last(), rank, p);
        }
    }
}

/// Putting a hit into sorted hits leaves them sorted.
pub proof fn lemma_insert_sorted(hits: Seq<QueryHits>, hit: QueryHits)
    requires
        sorted_desc(hits),
    ensures
        sorted_desc(insert_desc(hits, hit)),
        insert_desc(hits, hit).len() == hits.len() + 1,
{
    let rank = hit_rank(hit);
    let p = insert_point(hits, rank) as int;
    lemma_insert_point(hits, rank);
    let out = insert_desc(hits, hit);
    assert forall|i: int, j: int| 0 <= i < j < out.len() implies hit_rank(out[i]) >= hit_rank(
        out[j],
    ) by {
        if j < p {
            assert(out[i] == hits[i] && out[j] == hits[j]);
        } else if j == p {
            assert(out[i] == hits[i]);
            if p > 0 {
                assert(hit_rank(hits[p - 1]) >= rank);
                if i < p - 1 {
                    assert(hit_rank(hits[i]) >= hit_rank(hits[p - 1]));
                }
            }
        } else {
            assert(out[j] == hits[j - 1]);
            if i < p {
                assert(out[i] == hits[i]);
            } else if i == p {
                assert(hit_rank(hits[j - 1]) < rank);
            } else {
                assert(out[i] == hits[i - 1]);
            }
        }
    }
}

/// A sorted sequence is sorted and as long as what it was made from.
pub proof fn lemma_sort_sorted(hits: Seq<QueryHits>)
    ensures
        sorted_desc(sort_desc(hits)),
        sort_desc(hits).len() == hits.len(),
    decreases hits.len(),
{
    if hits.len() > 0 {
        lemma_sort_sorted(hits.drop_last());
        lemma_insert_sorted(sort_desc(hits.drop_last()), hits.last());
    }
}

/// Sorting keeps every hit, as often as it occurs.
pub proof fn lemma_sort_permutes(hits: Seq<QueryHits>)
    ensures
        sort_desc(hits).to_multiset() == hits.to_multiset(),
    decreases hits.len(),
{
    broadcast use vstd::seq_lib::group_to_multiset_ensures;

    if hits.len() > 0 {
        let rest = hits.drop_last();
        lemma_sort_permutes(rest);
        lemma_insert_point(sort_desc(rest), hit_rank(hits.last()));
        assert(rest.push(hits.last()) =~= hits);
    } else {
        assert(sort_desc(hits) =~= hits);
    }
}

/// Putting a hit in adds its document to those that the hits are for.
pub proof fn lemma_insert_docs(hits: Seq<QueryHits>, hit: QueryHits, doc: Seq<char>)
    ensures
        has_doc(insert_desc(hits, hit), doc) <==> (has_doc(hits, doc) || hit_doc(hit) == doc),
{
    let p = insert_point(hits, hit_rank(hit)) as int;
    lemma_insert_point(hits, hit_rank(hit));
    let out = insert_desc(hits, hit);
    if has_doc(out, doc) {
        let i = choose|i: int| 0 <= i < out.len() && hit_doc(#[trigger] out[i]) == doc;
        if i < p {
            assert(out[i] == hits[i]);
        } else if i > p {
            assert(out[i] == hits[i - 1]);
        }
    }
    if has_doc(hits, doc) {
        let i = choose|i: int| 0 <= i < hits.len() && hit_doc(#[trigger] hits[i]) == doc;
        if i < p {
            assert(out[i] == hits[i]);
        } else {
            assert(out[i + 1] == hits[i]);
        }
    }
    if hit_doc(hit) == doc {
        assert(out[p] == hit);
    }
}

/// Putting in a hit for a document that the hits do not hold yet leaves them
/// without a repeated document.
pub proof fn lemma_insert_distinct(hits: Seq<QueryHits>, hit: QueryHits)
    requires
        distinct_docs(hits),
        !has_doc(hits, hit_doc(hit)),
    ensures
        distinct_docs(insert_desc(hits, hit)),
{
    let p = insert_point(hits, hit_rank(hit)) as int;
    lemma_insert_point(hits, hit_rank(hit));
    let out = insert_desc(hits, hit);
    assert forall|i: int, j: int| 0 <= i < j < out.len() implies hit_doc(out[i]) != hit_doc(
        out[j],
    ) by {
        let a = if i < p { i } else { i - 1 };
        let b = if j < p { j } else { j - 1 };
        if i != p && j != p {
            assert(out[i] == hits[a] && out[j] == hits[b]);
        } else if i == p {
            assert(out[j] == hits[b]);
        } else {
            assert(out[i] == hits[a]);
        }
    }
}

/// Sorting neither adds nor loses a document, and hits without a repeated
/// document stay so.
pub proof fn lemma_sort_docs(hits: Seq<QueryHits>)
    ensures
        forall|doc: Seq<char>| has_doc(sort_desc(hits), doc) <==> has_doc(hits, doc),
        distinct_docs(hits) ==> distinct_docs(sort_desc(hits)),
    decreases hits.len(),
{
    if hits.len() > 0 {
        let rest = hits.drop_last();
        let last = hits.last();
        lemma_sort_docs(rest);
        assert forall|doc: Seq<char>| has_doc(sort_desc(hits), doc) <==> has_doc(hits, doc) by {
            lemma_insert_docs(sort_desc(rest), last, doc);
            if has_doc(hits, doc) {
                let i = choose|i: int| 0 <= i < hits.len() && hit_doc(#[trigger] hits[i]) == doc;
                if i < hits.len() - 1 {
                    assert(rest[i] == hits[i]);
                }
            }
            if has_doc(rest, doc) {
                let i = choose|i: int| 0 <= i < rest.len() && hit_doc(#[trigger] rest[i]) == doc;
                assert(rest[i] == hits[i]);
            }
            if hit_doc(last) == doc {
                assert(hits[hits.len() - 1] == last);
            }
        }
        if distinct_docs(hits) {
            assert(distinct_docs(rest)) by {
                assert forall|i: int, j: int| 0 <= i < j < rest.len() implies hit_doc(rest[i])
                    != hit_doc(rest[j]) by {
                    assert(rest[i] == hits[i] && rest[j] == hits[j]);
                }
            }
            if has_doc(rest, hit_doc(last)) {
                let i = choose|i: int|
                    0 <= i < rest.len() && hit_doc(#[trigger] rest[i]) == hit_doc(last);
                assert(rest[i] == hits[i]);
                assert(hit_doc(hits[i]) != hit_doc(hits[hits.len() - 1]));
            }
            lemma_insert_distinct(sort_desc(rest), last);
        }
    }
}

/// Finds where a hit of the given rank goes into sorted hits.
pub fn find_insert_point(hits: &Vec<QueryHits>, rank: u64) -> (point: usize)
    requires
        sorted_desc(hits@),
    ensures
        point == insert_point(hits@, rank),
        point <= hits.len(),
{
    let mut low: usize = 0;
    let mut high: usize = hits.len();
    while low < high
        invariant
            low <= high <= hits.len(),
            sorted_desc(hits@),
            forall|i: int| 0 <= i < low ==> hit_rank(hits@[i]) >= rank,
            forall|i: int| high <= i < hits.len() ==> hit_rank(hits@[i]) < rank,
        decreases high - low,
    {
        let middle: usize = low + (high - low) / 2;
        if score_rank(hits[middle].score) >= rank {
            low = middle + 1;
        } else {
            high = middle;
        }
    }
    proof {
        lemma_insert_point_unique(hits@, rank, low as int);
    }
    low
}

/// Sorts hits by score, best first; hits of equal rank keep their order.
pub fn sort_hits(hits: &Vec<QueryHits>) -> (sorted: Vec<QueryHits>)
    ensures
        sorted@ == sort_desc(hits@),
        sorted_desc(sorted@),
        sorted@.len() == hits@.len(),
{
    let mut sorted: Vec<QueryHits> = Vec::new();
    let mut next: usize = 0;
    while next < hits.len()
        invariant
            next <= hits.len(),
            sorted@ == sort_desc(hits@.take(next as int)),
            sorted_desc(sorted@),
            sorted@.len() == next,
        decreases hits.len() - next,
    {
        let hit = hits[next].clone();
        let point = find_insert_point(&sorted, score_rank(hit.score));
        proof {
            lemma_insert_sorted(sorted@, hit);
            assert(hits@.take(next + 1).drop_last() =~= hits@.take(next as int));
        }
        sorted.insert(point, hit);
        next = next + 1;
    }
    proof {
        assert(hits@.take(next as int) =~= hits@);
    }
    sorted
}

} // verus!
