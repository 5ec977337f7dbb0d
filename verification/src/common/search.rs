use vstd::prelude::*;
use vstd::string::StringExecFns;
use crate::common::document::Document;

verus! {

/// The identity of a backend: `id` is the stable key, `kind` the broad
/// category, `name` a display label.
#[derive(Debug, PartialEq, Eq)]
pub struct QuerySource {
    pub kind: String,
    pub name: String,
    pub id: String,
}

/// A backend's identity as text.
pub struct SourceIdentity {
    pub kind: Seq<char>,
    pub name: Seq<char>,
    pub id: Seq<char>,
}

impl View for QuerySource {
    type V = SourceIdentity;

    open spec fn view(&self) -> SourceIdentity {
        SourceIdentity { kind: self.kind@, name: self.name@, id: self.id@ }
    }
}

impl Clone for QuerySource {
    fn clone(&self) -> (copy: Self)
        ensures
            copy == *self,
    {
        QuerySource { kind: self.kind.clone(), name: self.name.clone(), id: self.id.clone() }
    }
}

/// The value that a bag of string parameters gives to `key`: that of the
/// first pair with this key.
pub open spec fn param_of(pairs: Seq<(String, String)>, key: Seq<char>) -> Option<Seq<char>>
    decreases pairs.len(),
{
    if pairs.len() == 0 {
        None
    } else if pairs[0].0@ == key {
        Some(pairs[0].1@)
    } else {
        param_of(pairs.drop_first(), key)
    }
}

/// Looks a parameter up in a bag of string parameters.
pub fn find_param(pairs: &Vec<(String, String)>, key: &str) -> (value: Option<String>)
    ensures
        value is Some <==> param_of(pairs@, key@) is Some,
        value is Some ==> value->0@ == param_of(pairs@, key@)->0,
{
    let wanted = String::from_str(key);
    let mut next: usize = 0;
    proof {
        assert(pairs@.skip(0) =~= pairs@);
    }
    while next < pairs.len()
        invariant
            next <= pairs.len(),
            wanted@ == key@,
            param_of(pairs@, key@) == param_of(pairs@.skip(next as int), key@),
        decreases pairs.len() - next,
    {
        proof {
            assert(pairs@.skip(next as int).drop_first() =~= pairs@.skip(next + 1));
            assert(pairs@.skip(next as int)[0] == pairs@[next as int]);
        }
        if pairs[next].0 == wanted {
            return Some(pairs[next].1.clone());
        }
        next = next + 1;
    }
    None
}

/// One query: a window into the results, an open bag of string parameters
/// and the time allowed for the call, in milliseconds. Where a key occurs
/// more than once, the first pair gives the parameter's value.
#[derive(Debug, PartialEq, Eq)]
pub struct SearchQuery {
    pub from: u64,
    pub size: u64,
    pub query_strings: Vec<(String, String)>,
    pub timeout_ms: u64,
}

impl SearchQuery {
    pub fn new(from: u64, size: u64, query_strings: Vec<(String, String)>, timeout_ms: u64) -> (query:
        SearchQuery)
        ensures
            query.from == from,
            query.size == size,
            query.query_strings == query_strings,
            query.timeout_ms == timeout_ms,
    {
        SearchQuery { from, size, query_strings, timeout_ms }
    }
}

/// What one backend answers: its identity, its hits with their scores (each
/// score as the bit pattern of an IEEE-754 binary64 number) and the number of
/// hits it knows of.
#[derive(Debug, PartialEq, Eq)]
pub struct QueryResponse {
    pub source: QuerySource,
    pub hits: Vec<(Document, u64)>,
    pub total_hits: usize,
}

/// One hit of a fused round. The score is the bit pattern of an IEEE-754
/// binary64 number.
#[derive(Debug, PartialEq, Eq)]
pub struct QueryHits {
    pub source: Option<QuerySource>,
    pub score: u64,
    pub document: Document,
}

impl Clone for QueryHits {
    fn clone(&self) -> (copy: Self)
        ensures
            copy == *self,
    {
        let source = match &self.source {
            Some(identity) => Some(identity.clone()),
            None => None,
        };
        QueryHits { source, score: self.score, document: self.document.clone() }
    }
}

/// A backend that did not answer in a round. The backend is absent where
/// the failure could not be tied to one.
#[derive(Debug, PartialEq, Eq)]
pub struct FailedRequest {
    pub source: Option<QuerySource>,
    pub status: u32,
    pub error: Option<String>,
    pub reason: Option<String>,
}

/// The result of a fused round.
#[derive(Debug, PartialEq, Eq)]
pub struct MultiSourceQueryResponse {
    pub failed: Vec<FailedRequest>,
    pub hits: Vec<QueryHits>,
    pub total_hits: usize,
}

} // verus!
