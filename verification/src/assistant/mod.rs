use vstd::prelude::*;
use vstd::string::StringExecFns;
use crate::common::http::GetResponse;
use crate::common::table::KeyedTable;
use crate::common::text::{decimal, decimal_text};
use crate::server::search::text_map;

verus! {

/// The header that names the socket over which a chat answers.
pub const SESSION_HEADER: &'static str = "WEBSOCKET-SESSION-ID";

/// The parameters that ask for a part of a history: `from` and `size` where
/// they are above 0, and `query` where it is given and not empty.
pub open spec fn history_args(from: u32, size: u32, query: Option<String>) -> Map<
    Seq<char>,
    Seq<char>,
> {
    let none = Map::<Seq<char>, Seq<char>>::empty();
    let first = if from > 0 {
        none.insert("from"@, decimal_text(from as nat))
    } else {
        none
    };
    let second = if size > 0 {
        first.insert("size"@, decimal_text(size as nat))
    } else {
        first
    };
    match query {
        Some(text) => if text@.len() > 0 {
            second.insert("query"@, text@)
        } else {
            second
        },
        None => second,
    }
}

/// Writes the parameters that ask for a part of a history.
pub fn history_params(from: u32, size: u32, query: Option<String>) -> (params: KeyedTable<String>)
    ensures
        params.well_formed(),
        text_map(params@) == history_args(from, size, query),
{
    let mut params: KeyedTable<String> = KeyedTable::new();
    proof {
        assert(text_map(params@) =~= Map::<Seq<char>, Seq<char>>::empty());
    }
    if from > 0 {
        let ghost before = params@;
        let _ = params.insert(String::from_str("from"), decimal(from as u64));
        proof {
            assert(text_map(params@) =~= text_map(before).insert(
                "from"@,
                decimal_text(from as nat),
            ));
        }
    }
    if size > 0 {
        let ghost before = params@;
        let _ = params.insert(String::from_str("size"), decimal(size as u64));
        proof {
            assert(text_map(params@) =~= text_map(before).insert(
                "size"@,
                decimal_text(size as nat),
            ));
        }
    }
    match query {
        Some(text) => {
            if !text.as_str().is_empty() {
                let ghost before = params@;
                let ghost wanted = text@;
                let _ = params.insert(String::from_str("query"), text);
                proof {
                    assert(text_map(params@) =~= text_map(before).insert("query"@, wanted));
                }
            }
        },
        None => {},
    }
    params
}

/// The path of a chat session, or of one of the things that can be done to
/// it where `action` names one.
pub fn session_path(session_id: &str, action: Option<&str>) -> (path: String)
    ensures
        path@ == match action {
            Some(name) => "/chat/"@ + session_id@ + "/"@ + name@,
            None => "/chat/"@ + session_id@,
        },
{
    let base = String::from_str("/chat/").concat(session_id);
    match action {
        Some(name) => base.concat("/").concat(name),
        None => base,
    }
}

/// Makes sure that a server did create the chat that it was asked for: its
/// answer must say `created`.
pub fn check_created(response: GetResponse) -> (checked: Result<GetResponse, String>)
    ensures
        checked is Ok <==> response.result@ == "created"@,
        checked is Ok ==> checked->Ok_0 == response,
        checked is Err ==> checked->Err_0@ == "Unexpected result: "@ + response.result@,
{
    if response.result == String::from_str("created") {
        Ok(response)
    } else {
        Err(String::from_str("Unexpected result: ").concat(response.result.as_str()))
    }
}

} // verus!
