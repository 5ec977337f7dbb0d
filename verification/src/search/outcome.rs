use vstd::prelude::*;
use vstd::string::StringExecFns;
use crate::common::error::SearchError;
use crate::common::search::{FailedRequest, QueryResponse, QuerySource};

verus! {

/// How the call to one backend ended.
#[derive(Debug, PartialEq, Eq)]
pub enum SearchOutcome {
    /// The backend answered.
    Completed(QueryResponse),
    /// The backend reported an error.
    Rejected(QuerySource, SearchError),
    /// The backend did not answer within the time allowed for one call.
    TimedOut(QuerySource),
    /// The call itself broke down before it could be tied to a backend.
    Aborted(String),
}

impl SearchOutcome {
    /// The backend answered.
    pub open spec fn is_completed(self) -> bool {
        self is Completed
    }

    /// The number of hits that the backend knows of; 0 where it did not
    /// answer.
    pub open spec fn reported_hits(self) -> nat {
        match self {
            SearchOutcome::Completed(response) => response.total_hits as nat,
            _ => 0,
        }
    }

    /// `record` is the failure record of this outcome: it names the backend
    /// where the outcome does, carries status 0, and gives as its error the
    /// backend's error as text, the words for an elapsed deadline, or what
    /// the broken call left behind. Only a timeout has a reason.
    pub open spec fn recorded_as(self, record: FailedRequest) -> bool {
        match self {
            SearchOutcome::Completed(_) => false,
            SearchOutcome::Rejected(source, error) => {
                &&& record.source == Some(source)
                &&& record.status == 0
                &&& record.error is Some
                &&& record.error->0@ == error.message_text()
                &&& record.reason is None
            },
            SearchOutcome::TimedOut(source) => {
                &&& record.source == Some(source)
                &&& record.status == 0
                &&& record.error is Some
                &&& record.error->0@ == "deadline has elapsed"@
                &&& record.reason is Some
                &&& record.reason->0@ == "timeout"@
            },
            SearchOutcome::Aborted(detail) => {
                &&& record.source is None
                &&& record.status == 0
                &&& record.error == Some(detail)
                &&& record.reason is None
            },
        }
    }

    /// Writes the failure record of an outcome; none for a backend that
    /// answered.
    pub fn failure(&self) -> (record: Option<FailedRequest>)
        ensures
            record is Some <==> !self.is_completed(),
            record is Some ==> self.recorded_as(record->0),
    {
        match self {
            SearchOutcome::Completed(_) => None,
            SearchOutcome::Rejected(source, error) => Some(
                FailedRequest {
                    source: Some(source.clone()),
                    status: 0,
                    error: Some(error.message()),
                    reason: None,
                },
            ),
            SearchOutcome::TimedOut(source) => Some(
                FailedRequest {
                    source: Some(source.clone()),
                    status: 0,
                    error: Some(String::from_str("deadline has elapsed")),
                    reason: Some(String::from_str("timeout")),
                },
            ),
            SearchOutcome::Aborted(detail) => Some(
                FailedRequest {
                    source: None,
                    status: 0,
                    error: Some(detail.clone()),
                    reason: None,
                },
            ),
        }
    }
}

/// The outcomes that are failures, in their order.
pub open spec fn failures_of(outcomes: Seq<SearchOutcome>) -> Seq<SearchOutcome>
    decreases outcomes.len(),
{
    if outcomes.len() == 0 {
        Seq::empty()
    } else if outcomes.last().is_completed() {
        failures_of(outcomes.drop_last())
    } else {
        failures_of(outcomes.drop_last()).push(outcomes.last())
    }
}

/// The number of hits that the backends of a round know of, all together.
pub open spec fn total_of(outcomes: Seq<SearchOutcome>) -> nat
    decreases outcomes.len(),
{
    if outcomes.len() == 0 {
        0
    } else {
        total_of(outcomes.drop_last()) + outcomes.last().reported_hits()
    }
}

/// The number of backends that answered in a round.
pub open spec fn answers_of(outcomes: Seq<SearchOutcome>) -> nat
    decreases outcomes.len(),
{
    if outcomes.len() == 0 {
        0
    } else if outcomes.last().is_completed() {
        answers_of(outcomes.drop_last()) + 1
    } else {
        answers_of(outcomes.drop_last())
    }
}

/// Every outcome of a round is an answer or a failure: of the backends that
/// were asked, those that did not answer are the failures, one each.
pub proof fn lemma_round_accounts(outcomes: Seq<SearchOutcome>)
    ensures
        failures_of(outcomes).len() + answers_of(outcomes) == outcomes.len(),
    decreases outcomes.len(),
{
    if outcomes.len() > 0 {
        lemma_round_accounts(outcomes.drop_last());
    }
}

} // verus!
