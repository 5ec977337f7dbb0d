use vstd::prelude::*;
use vstd::string::StringExecFns;
use crate::common::error::SearchError;
use crate::common::register::SearchSourceRegistry;
use crate::common::search::{
    find_param, param_of, FailedRequest, MultiSourceQueryResponse, QueryResponse, QuerySource,
    SearchQuery,
};
use crate::common::traits::SearchSource;
use crate::search::guarantees::lemma_fused_page;
use crate::search::merge::{accept_hits, collect_pool, fused_hits, pool_of};
use crate::search::outcome::{failures_of, lemma_round_accounts, total_of, SearchOutcome};
use crate::search::ranking::{distinct_docs, sort_hits, sorted_desc};

pub mod completeness;
pub mod fairness;
pub mod guarantees;
pub mod merge;
pub mod outcome;
pub mod ranking;

verus! {

/// The total of a round never falls when an outcome is added.
pub proof fn lemma_total_grows(outcomes: Seq<SearchOutcome>, count: int)
    requires
        0 <= count <= outcomes.len(),
    ensures
        total_of(outcomes.take(count)) <= total_of(outcomes),
    decreases outcomes.len() - count,
{
    if count < outcomes.len() {
        lemma_total_grows(outcomes, count + 1);
        assert(outcomes.take(count + 1).drop_last() =~= outcomes.take(count));
    } else {
        assert(outcomes.take(count) =~= outcomes);
    }
}

/// Adds up the hits that the backends of a round know of; `None` where the
/// sum is beyond what a `usize` holds.
pub fn sum_reported(outcomes: &Vec<SearchOutcome>) -> (sum: Option<usize>)
    ensures
        sum is Some <==> total_of(outcomes@) <= usize::MAX,
        sum is Some ==> sum->0 == total_of(outcomes@),
{
    let mut total: usize = 0;
    let mut next: usize = 0;
    while next < outcomes.len()
        invariant
            next <= outcomes.len(),
            total == total_of(outcomes@.take(next as int)),
        decreases outcomes.len() - next,
    {
        proof {
            assert(outcomes@.take(next + 1).drop_last() =~= outcomes@.take(next as int));
            lemma_total_grows(outcomes@, next + 1);
        }
        match &outcomes[next] {
            SearchOutcome::Completed(response) => {
                if response.total_hits > usize::MAX - total {
                    return None;
                }
                total = total + response.total_hits;
            },
            _ => {},
        }
        next = next + 1;
    }
    proof {
        assert(outcomes@.take(next as int) =~= outcomes@);
    }
    Some(total)
}

/// Writes the failure records of a round, in the order of its outcomes.
pub fn collect_failures(outcomes: &Vec<SearchOutcome>) -> (failed: Vec<FailedRequest>)
    ensures
        failed@.len() == failures_of(outcomes@).len(),
        forall|i: int|
            0 <= i < failed@.len() ==> (#[trigger] failures_of(outcomes@)[i]).recorded_as(
                failed@[i],
            ),
{
    let mut failed: Vec<FailedRequest> = Vec::new();
    let mut next: usize = 0;
    while next < outcomes.len()
        invariant
            next <= outcomes.len(),
            failed@.len() == failures_of(outcomes@.take(next as int)).len(),
            forall|i: int|
                0 <= i < failed@.len() ==> (#[trigger] failures_of(
                    outcomes@.take(next as int),
                )[i]).recorded_as(failed@[i]),
        decreases outcomes.len() - next,
    {
        proof {
            assert(outcomes@.take(next + 1).drop_last() =~= outcomes@.take(next as int));
        }
        match outcomes[next].failure() {
            Some(record) => {
                failed.push(record);
            },
            None => {},
        }
        next = next + 1;
    }
    proof {
        assert(outcomes@.take(next as int) =~= outcomes@);
    }
    failed
}

/// Merges the outcomes of a round into one page of at most `size` hits.
///
/// Every backend that answered gets a fair share of the page first; what is
/// left of the page goes to the best hits of all. No document occurs twice,
/// and the page is in descending order of score. Every other outcome is
/// written down as a failure, and none of them stops the round.
pub fn fuse_outcomes(outcomes: &Vec<SearchOutcome>, size: u64) -> (page: MultiSourceQueryResponse)
    requires
        total_of(outcomes@) <= usize::MAX,
    ensures
        page.hits@ == fused_hits(pool_of(outcomes@), size),
        page.total_hits == total_of(outcomes@),
        page.failed@.len() == failures_of(outcomes@).len(),
        forall|i: int|
            0 <= i < page.failed@.len() ==> (#[trigger] failures_of(outcomes@)[i]).recorded_as(
                page.failed@[i],
            ),
        distinct_docs(page.hits@),
        page.hits@.len() <= size,
        size == 0 ==> page.hits@.len() == 0,
        sorted_desc(page.hits@),
{
    let total_hits = match sum_reported(outcomes) {
        Some(total) => total,
        None => 0,
    };
    let failed = collect_failures(outcomes);
    let pool = collect_pool(outcomes);
    let accepted = accept_hits(&pool, size);
    let hits = sort_hits(&accepted);
    proof {
        lemma_fused_page(pool@, size);
    }
    MultiSourceQueryResponse { failed, hits, total_hits }
}

/// Merges the outcomes of a round as `fuse_outcomes` does; `None` where the
/// backends report more hits, all together, than a `usize` holds.
pub fn checked_fuse_outcomes(outcomes: &Vec<SearchOutcome>, size: u64) -> (page: Option<
    MultiSourceQueryResponse,
>)
    ensures
        page is Some <==> total_of(outcomes@) <= usize::MAX,
        page is Some ==> {
            &&& page->0.hits@ == fused_hits(pool_of(outcomes@), size)
            &&& page->0.total_hits == total_of(outcomes@)
            &&& page->0.failed@.len() == failures_of(outcomes@).len()
            &&& forall|i: int|
                0 <= i < page->0.failed@.len() ==> (#[trigger] failures_of(
                    outcomes@,
                )[i]).recorded_as(page->0.failed@[i])
            &&& distinct_docs(page->0.hits@)
            &&& page->0.hits@.len() <= size
            &&& sorted_desc(page->0.hits@)
        },
{
    match sum_reported(outcomes) {
        Some(_) => Some(fuse_outcomes(outcomes, size)),
        None => None,
    }
}

/// The parameter that restricts a round to one backend, by its id.
pub open spec fn source_param() -> Seq<char> {
    "querysource"@
}

/// A backend with this id takes part in a round that is restricted to
/// `only`, or in one that is not restricted.
pub open spec fn takes_part(id: Seq<char>, only: Option<Seq<char>>) -> bool {
    match only {
        Some(wanted) => id == wanted,
        None => true,
    }
}

/// The places, among `ids`, of the backends that take part in a round.
pub open spec fn selected(ids: Seq<Seq<char>>, only: Option<Seq<char>>) -> Seq<int>
    decreases ids.len(),
{
    if ids.len() == 0 {
        Seq::empty()
    } else if takes_part(ids.last(), only) {
        selected(ids.drop_last(), only).push(ids.len() - 1)
    } else {
        selected(ids.drop_last(), only)
    }
}

/// The ids of a list of identities.
pub open spec fn ids_of(identities: Seq<QuerySource>) -> Seq<Seq<char>> {
    Seq::new(identities.len(), |i: int| identities[i].id@)
}

/// The places of a list as integers.
pub open spec fn places(chosen: Seq<usize>) -> Seq<int> {
    Seq::new(chosen.len(), |i: int| chosen[i] as int)
}

/// Every selected place is a place of the list, and a round that is not
/// restricted selects every backend.
pub proof fn lemma_selected(ids: Seq<Seq<char>>, only: Option<Seq<char>>)
    ensures
        selected(ids, only).len() <= ids.len(),
        forall|i: int|
            0 <= i < selected(ids, only).len() ==> 0 <= #[trigger] selected(ids, only)[i]
                < ids.len() && takes_part(ids[selected(ids, only)[i]], only),
        only is None ==> selected(ids, only).len() == ids.len(),
    decreases ids.len(),
{
    if ids.len() > 0 {
        lemma_selected(ids.drop_last(), only);
        let rest = selected(ids.drop_last(), only);
        assert forall|i: int| 0 <= i < selected(ids, only).len() implies 0 <= #[trigger] selected(
            ids,
            only,
        )[i] < ids.len() && takes_part(ids[selected(ids, only)[i]], only) by {
            if i < rest.len() {
                assert(selected(ids, only)[i] == rest[i]);
                assert(ids.drop_last()[rest[i]] == ids[rest[i]]);
            }
        }
    }
}

/// Picks the backends that take part in a round: the one that the parameter
/// `querysource` names by its id, or all of them where the parameter is not
/// given.
pub fn select_sources(identities: &Vec<QuerySource>, query_strings: &Vec<(String, String)>) -> (chosen:
    Vec<usize>)
    ensures
        places(chosen@) == selected(
            ids_of(identities@),
            param_of(query_strings@, source_param()),
        ),
        forall|i: int| 0 <= i < chosen@.len() ==> chosen@[i] < identities@.len(),
{
    let only = find_param(query_strings, "querysource");
    let ghost wanted = param_of(query_strings@, source_param());
    let mut chosen: Vec<usize> = Vec::new();
    let mut next: usize = 0;
    while next < identities.len()
        invariant
            next <= identities.len(),
            only is Some <==> wanted is Some,
            only is Some ==> only->0@ == wanted->0,
            places(chosen@) == selected(ids_of(identities@).take(next as int), wanted),
            forall|i: int| 0 <= i < chosen@.len() ==> chosen@[i] < next,
        decreases identities.len() - next,
    {
        proof {
            assert(ids_of(identities@).take(next + 1).drop_last() =~= ids_of(identities@).take(
                next as int,
            ));
        }
        let joins = match &only {
            Some(id) => identities[next].id == *id,
            None => true,
        };
        if joins {
            proof {
                assert(places(chosen@.push(next)) =~= places(chosen@).push(next as int));
            }
            chosen.push(next);
        }
        next = next + 1;
    }
    proof {
        assert(ids_of(identities@).take(next as int) =~= ids_of(identities@));
    }
    chosen
}

/// What the answer of a backend means for the round: an answer counts, a
/// timeout is noted as such, any other error as a rejection.
pub open spec fn outcome_for(source: QuerySource, answer: Result<QueryResponse, SearchError>) -> SearchOutcome {
    match answer {
        Ok(response) => SearchOutcome::Completed(response),
        Err(SearchError::Timeout) => SearchOutcome::TimedOut(source),
        Err(error) => SearchOutcome::Rejected(source, error),
    }
}

/// Turns the answer of a backend into the outcome of its call.
pub fn outcome_of(source: QuerySource, answer: Result<QueryResponse, SearchError>) -> (outcome:
    SearchOutcome)
    ensures
        outcome == outcome_for(source, answer),
{
    match answer {
        Ok(response) => SearchOutcome::Completed(response),
        Err(SearchError::Timeout) => SearchOutcome::TimedOut(source),
        Err(error) => SearchOutcome::Rejected(source, error),
    }
}

/// Copies a bag of string parameters.
pub fn clone_params(pairs: &Vec<(String, String)>) -> (copy: Vec<(String, String)>)
    ensures
        copy@ == pairs@,
{
    let mut copy: Vec<(String, String)> = Vec::new();
    let mut next: usize = 0;
    while next < pairs.len()
        invariant
            next <= pairs.len(),
            copy@ == pairs@.take(next as int),
        decreases pairs.len() - next,
    {
        copy.push((pairs[next].0.clone(), pairs[next].1.clone()));
        proof {
            assert(copy@ =~= pairs@.take(next + 1));
        }
        next = next + 1;
    }
    proof {
        assert(pairs@.take(next as int) =~= pairs@);
    }
    copy
}

/// Asks the chosen backends one after the other. Each of them gets the same
/// query; whatever one of them answers, the others are still asked.
pub fn dispatch_round<S: SearchSource>(
    sources: &Vec<&S>,
    chosen: &Vec<usize>,
    from: u64,
    size: u64,
    query_strings: &Vec<(String, String)>,
    query_timeout: u64,
) -> (outcomes: Vec<SearchOutcome>)
    requires
        forall|i: int| 0 <= i < chosen@.len() ==> chosen@[i] < sources@.len(),
    ensures
        outcomes@.len() == chosen@.len(),
        forall|i: int|
            0 <= i < outcomes@.len() ==> asked(
                sources@[chosen@[i] as int], from, size, query_strings@, query_timeout,
                #[trigger] outcomes@[i],
            ),
{
    let mut outcomes: Vec<SearchOutcome> = Vec::new();
    let mut next: usize = 0;
    while next < chosen.len()
        invariant
            next <= chosen.len(),
            outcomes@.len() == next,
            forall|i: int| 0 <= i < chosen@.len() ==> chosen@[i] < sources@.len(),
            forall|i: int|
                0 <= i < next ==> asked(
                    sources@[chosen@[i] as int], from, size, query_strings@, query_timeout,
                    #[trigger] outcomes@[i],
                ),
        decreases chosen.len() - next,
    {
        let backend = sources[chosen[next]];
        let query = SearchQuery::new(from, size, clone_params(query_strings), query_timeout);
        let ghost handed = query;
        let source = backend.get_type();
        let answer = backend.search(query);
        let outcome = outcome_of(source, answer);
        proof {
            assert(call_ensures(S::search, (backend, handed), answer));
            assert(outcome == outcome_for(source, answer));
            assert(asked(backend, from, size, query_strings@, query_timeout, outcome));
        }
        outcomes.push(outcome);
        next = next + 1;
    }
    outcomes
}

/// Runs one round: asks every registered backend, or the one that the
/// parameter `querysource` names, and merges what comes back into one page of
/// at most `size` hits.
///
/// A backend that fails or runs out of time is written down in the page's
/// failures and does not stop the round. The round itself fails only where
/// the backends report more hits, all together, than a `usize` holds.
pub fn query_coco_fusion<S: SearchSource>(
    registry: &SearchSourceRegistry<S>,
    from: u64,
    size: u64,
    query_strings: Vec<(String, String)>,
    query_timeout: u64,
) -> (result: Result<MultiSourceQueryResponse, SearchError>)
    requires
        registry.well_formed(),
    ensures
        exists|outcomes: Seq<SearchOutcome>|
            {
                &&& #[trigger] round_of(
                    registry.backends(),
                    selected(registry.ids(), param_of(query_strings@, source_param())),
                    from,
                    size,
                    query_strings@,
                    query_timeout,
                    outcomes,
                )
                &&& round_ends(outcomes, size, result)
            },
        result matches Ok(page) ==> {
            &&& distinct_docs(page.hits@)
            &&& page.hits@.len() <= size
            &&& sorted_desc(page.hits@)
            &&& page.failed@.len() <= selected(
                registry.ids(),
                param_of(query_strings@, source_param()),
            ).len()
        },
        result matches Err(error) ==> error is InternalError,
        selected(registry.ids(), param_of(query_strings@, source_param())).len() == 0 ==> {
            &&& result is Ok
            &&& result->Ok_0.hits@.len() == 0
            &&& result->Ok_0.failed@.len() == 0
            &&& result->Ok_0.total_hits == 0
        },
{
    let sources = registry.get_sources();
    let identities = registry.list_backends();
    let ghost picked = selected(registry.ids(), param_of(query_strings@, source_param()));
    proof {
        registry.lemma_well_formed();
        assert(ids_of(identities@) =~= registry.ids());
    }
    let chosen = select_sources(&identities, &query_strings);
    let outcomes = dispatch_round(&sources, &chosen, from, size, &query_strings, query_timeout);
    proof {
        lemma_round_accounts(outcomes@);
        lemma_selected(registry.ids(), param_of(query_strings@, source_param()));
        assert(places(chosen@).len() == chosen@.len());
        assert forall|i: int| 0 <= i < outcomes@.len() implies asked(
            &registry.backends()[picked[i]],
            from,
            size,
            query_strings@,
            query_timeout,
            #[trigger] outcomes@[i],
        ) by {
            assert(places(chosen@)[i] == chosen@[i] as int);
            assert(*sources@[chosen@[i] as int] == registry.backends()[picked[i]]);
        }
        assert(round_of(
            registry.backends(),
            picked,
            from,
            size,
            query_strings@,
            query_timeout,
            outcomes@,
        ));
        if outcomes@.len() == 0 {
            assert(total_of(outcomes@) == 0);
            assert(pool_of(outcomes@) =~= Seq::<crate::common::search::QueryHits>::empty());
        }
    }
    let result = match checked_fuse_outcomes(&outcomes, size) {
        Some(page) => {
            proof {
                if outcomes@.len() == 0 {
                    lemma_empty_pool(size);
                }
            }
            Ok(page)
        },
        None => Err(
            SearchError::InternalError(
                String::from_str("the backends report more hits than can be counted"),
            ),
        ),
    };
    proof {
        assert(round_ends(outcomes@, size, result));
    }
    result
}

/// How the call to one backend may end in a round: the backend is asked
/// with the round's window, parameters and time allowed, and the outcome is
/// what its answer means for the round, under the backend's own identity.
pub open spec fn asked<S: SearchSource>(
    backend: &S,
    from: u64,
    size: u64,
    params: Seq<(String, String)>,
    timeout: u64,
    outcome: SearchOutcome,
) -> bool {
    exists|query: SearchQuery, source: QuerySource, answer: Result<QueryResponse, SearchError>|
        #![trigger call_ensures(S::search, (backend, query), answer), outcome_for(source, answer)]
        {
            &&& query.from == from
            &&& query.size == size
            &&& query.query_strings@ == params
            &&& query.timeout_ms == timeout
            &&& source@ == backend.identity()
            &&& call_ensures(S::search, (backend, query), answer)
            &&& outcome == outcome_for(source, answer)
        }
}

/// The outcomes of a round over the chosen backends: one for each of them,
/// in their order, each as the call to that backend may end.
pub open spec fn round_of<S: SearchSource>(
    backends: Seq<S>,
    chosen: Seq<int>,
    from: u64,
    size: u64,
    params: Seq<(String, String)>,
    timeout: u64,
    outcomes: Seq<SearchOutcome>,
) -> bool {
    &&& outcomes.len() == chosen.len()
    &&& forall|i: int|
        0 <= i < outcomes.len() ==> asked(
            &backends[chosen[i]],
            from,
            size,
            params,
            timeout,
            #[trigger] outcomes[i],
        )
}

/// `page` is the page of `size` hits that the outcomes of a round give: its
/// hits are those fused from the answers, its total is the sum of what the
/// backends report, and its failures are the failed outcomes, in their
/// order.
pub open spec fn fused_as(outcomes: Seq<SearchOutcome>, size: u64, page: MultiSourceQueryResponse) -> bool {
    &&& page.hits@ == fused_hits(pool_of(outcomes), size)
    &&& page.total_hits == total_of(outcomes)
    &&& page.failed@.len() == failures_of(outcomes).len()
    &&& forall|i: int|
        0 <= i < page.failed@.len() ==> (#[trigger] failures_of(outcomes)[i]).recorded_as(
            page.failed@[i],
        )
}

/// How a round with these outcomes ends: with their page, or, where the
/// backends report more hits than a `usize` holds, with an internal error
/// that says so.
pub open spec fn round_ends(
    outcomes: Seq<SearchOutcome>,
    size: u64,
    result: Result<MultiSourceQueryResponse, SearchError>,
) -> bool {
    match result {
        Ok(page) => total_of(outcomes) <= usize::MAX && fused_as(outcomes, size, page),
        Err(error) => {
            &&& total_of(outcomes) > usize::MAX
            &&& error is InternalError
            &&& error->InternalError_0@ == "the backends report more hits than can be counted"@
        },
    }
}

/// An empty pool gives an empty page.
pub proof fn lemma_empty_pool(size: u64)
    ensures
        fused_hits(Seq::<crate::common::search::QueryHits>::empty(), size).len() == 0,
{
    let pool = Seq::<crate::common::search::QueryHits>::empty();
    reveal_with_fuel(crate::search::merge::source_order, 2);
    reveal_with_fuel(crate::search::merge::fair_pass, 2);
    reveal_with_fuel(crate::search::merge::top_up, 2);
    reveal_with_fuel(crate::search::ranking::sort_desc, 2);
    assert(crate::search::merge::accepted_hits(pool, size).len() == 0);
}

} // verus!
