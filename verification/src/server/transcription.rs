use vstd::prelude::*;

verus! {

/// What a server heard in a recording.
#[derive(Debug, PartialEq, Eq)]
pub struct TranscriptionResponse {
    pub text: String,
}

} // verus!
