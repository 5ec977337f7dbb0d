use vstd::prelude::*;
use crate::common::error::SearchError;
use crate::common::search::{QueryResponse, QuerySource, SearchQuery, SourceIdentity};

verus! {

/// What every backend offers: who it is, and a search.
pub trait SearchSource {
    /// Who the backend is. It does not change over the backend's life.
    spec fn identity(&self) -> SourceIdentity;

    /// Tells who the backend is.
    fn get_type(&self) -> (source: QuerySource)
        ensures
            source@ == self.identity(),
    ;

    /// Answers a query, or says why it cannot. The backend gives up with
    /// `SearchError::Timeout` once the time that the query allows has passed.
    fn search(&self, query: SearchQuery) -> (answer: Result<QueryResponse, SearchError>);
}

} // verus!
