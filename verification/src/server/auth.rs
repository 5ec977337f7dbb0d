use vstd::prelude::*;
use crate::common::text::join;

verus! {

/// The path at which a server hands out the token for a sign-on request.
pub fn request_access_token_url(request_id: &str) -> (url: String)
    ensures
        url@ == "/auth/request_access_token?request_id="@ + request_id@,
{
    join("/auth/request_access_token?request_id=", request_id)
}

} // verus!
