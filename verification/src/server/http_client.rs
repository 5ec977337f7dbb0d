use vstd::prelude::*;
use vstd::string::StringExecFns;
use crate::common::server::{Server, ServerAccessToken};
use crate::common::table::KeyedTable;
use crate::common::text::{trim_end_char, trim_start_char, trimmed_end, trimmed_start};
use crate::server::servers::{get_server_by_id, get_server_token};

verus! {

/// The header that carries a server's token.
pub const TOKEN_HEADER: &'static str = "X-API-TOKEN";

/// A value of a query parameter, as far as it can be sent.
#[derive(Debug, PartialEq, Eq)]
pub enum QueryValue {
    /// A text, sent as it is.
    Text(String),
    /// A number, in the digits in which it is sent.
    Number(String),
    /// A flag, sent as `true` or `false`.
    Flag(bool),
    /// Anything else: it is not sent.
    Other,
}

/// A request that is ready to be sent: where it goes and the headers that
/// go with it.
pub struct PlannedRequest {
    pub url: String,
    pub headers: KeyedTable<String>,
}

/// How this client speaks to its servers.
pub struct HttpClient;

impl HttpClient {
    /// An address made of a base and a path, with exactly one slash between
    /// what the base holds before its last slashes and what the path holds
    /// behind its first.
    pub open spec fn joined_url(base: Seq<char>, path: Seq<char>) -> Seq<char> {
        trimmed_end(base, '/') + "/"@ + trimmed_start(path, '/')
    }

    /// Joins a base and a path into one address.
    pub fn join_url(base: &str, path: &str) -> (url: String)
        ensures
            url@ == Self::joined_url(base@, path@),
    {
        let front = trim_end_char(base, '/');
        let back = trim_start_char(path, '/');
        front.concat("/").concat(back.as_str())
    }

    /// The text in which a value of a query parameter is sent, if it is
    /// sent.
    pub open spec fn sent_as(value: QueryValue) -> Option<Seq<char>> {
        match value {
            QueryValue::Text(text) => Some(text@),
            QueryValue::Number(digits) => Some(digits@),
            QueryValue::Flag(flag) => Some(
                if flag {
                    "true"@
                } else {
                    "false"@
                },
            ),
            QueryValue::Other => None,
        }
    }

    /// Writes a value of a query parameter as it is sent; `None` for a value
    /// that is not sent.
    pub fn query_text(value: &QueryValue) -> (text: Option<String>)
        ensures
            text is Some <==> Self::sent_as(*value) is Some,
            text is Some ==> text->0@ == Self::sent_as(*value)->0,
    {
        match value {
            QueryValue::Text(text) => Some(text.clone()),
            QueryValue::Number(digits) => Some(digits.clone()),
            QueryValue::Flag(flag) => Some(
                String::from_str(
                    if *flag {
                        "true"
                    } else {
                        "false"
                    },
                ),
            ),
            QueryValue::Other => None,
        }
    }

    /// Plans a request to a server: the address is the server's endpoint
    /// joined with the path, the headers are the caller's, and the server's
    /// token goes with them where this client holds one. A server that is
    /// not known is an error.
    pub fn plan_request(
        cache: &KeyedTable<Server>,
        tokens: &KeyedTable<ServerAccessToken>,
        server_id: &str,
        path: &str,
        custom_headers: Option<KeyedTable<String>>,
    ) -> (plan: Result<PlannedRequest, String>)
        requires
            cache.well_formed(),
            tokens.well_formed(),
            custom_headers is Some ==> custom_headers->0.well_formed(),
        ensures
            plan is Ok <==> cache@.contains_key(server_id@),
            plan is Err ==> plan->Err_0@ == "Server not found"@,
            plan is Ok ==> {
                let given = match custom_headers {
                    Some(headers) => headers@,
                    None => Map::<Seq<char>, String>::empty(),
                };
                &&& plan->Ok_0.url@ == Self::joined_url(cache@[server_id@].endpoint@, path@)
                &&& plan->Ok_0.headers.well_formed()
                &&& if tokens@.contains_key(server_id@) {
                    plan->Ok_0.headers@ == given.insert(
                        TOKEN_HEADER@,
                        tokens@[server_id@].access_token,
                    )
                } else {
                    plan->Ok_0.headers@ == given
                }
            },
    {
        match get_server_by_id(cache, server_id) {
            Some(server) => {
                let url = Self::join_url(server.endpoint.as_str(), path);
                let mut headers = match custom_headers {
                    Some(headers) => headers,
                    None => KeyedTable::new(),
                };
                match get_server_token(tokens, server_id) {
                    Some(token) => {
                        let _ = headers.insert(String::from_str(TOKEN_HEADER), token.access_token);
                    },
                    None => {},
                }
                Ok(PlannedRequest { url, headers })
            },
            None => Err(String::from_str("Server not found")),
        }
    }
}

} // verus!
