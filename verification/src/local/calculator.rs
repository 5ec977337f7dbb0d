use vstd::prelude::*;
use vstd::string::{StrSliceExecFns, StringExecFns};
use crate::common::document::{DataSourceReference, Document};
use crate::common::search::{find_param, param_of, QueryResponse, QuerySource};
use crate::common::text::{trim, trimmed};

verus! {

/// The id of the calculator, as a backend and as a data source.
pub const DATA_SOURCE_ID: &'static str = "Calculator";

/// The characters that stand for an operation.
pub open spec fn is_operator(c: char) -> bool {
    c == '+' || c == '-' || c == '*' || c == '/' || c == '%'
}

/// The operators of a text, in their order.
pub open spec fn operators_of(text: Seq<char>) -> Seq<char>
    decreases text.len(),
{
    if text.len() == 0 {
        Seq::empty()
    } else if is_operator(text.last()) {
        operators_of(text.drop_last()).push(text.last())
    } else {
        operators_of(text.drop_last())
    }
}

/// The kind of a calculation: the name of its operation where the text has
/// exactly one operator, `expression` otherwise.
pub open spec fn operation_of(text: Seq<char>) -> Seq<char> {
    let operators = operators_of(text);
    if operators.len() != 1 {
        "expression"@
    } else if operators[0] == '+' {
        "sum"@
    } else if operators[0] == '-' {
        "subtract"@
    } else if operators[0] == '*' {
        "multiply"@
    } else if operators[0] == '/' {
        "divide"@
    } else {
        "remainder"@
    }
}

/// A calculation as it is shown: its kind and its text.
#[derive(Debug, PartialEq, Eq)]
pub struct ParsedQuery {
    pub kind: String,
    pub value: String,
}

/// Tells the kind of a calculation from its operators.
pub fn parse_query(query: String) -> (parsed: ParsedQuery)
    ensures
        parsed.kind@ == operation_of(query@),
        parsed.value == query,
{
    let text = query.as_str();
    let length: usize = text.unicode_len();
    let mut count: usize = 0;
    let mut found: char = ' ';
    let mut next: usize = 0;
    while next < length
        invariant
            next <= length,
            length == text@.len(),
            count == operators_of(text@.take(next as int)).len(),
            count <= next,
            count > 0 ==> found == operators_of(text@.take(next as int)).last(),
        decreases length - next,
    {
        proof {
            assert(text@.take(next + 1).drop_last() =~= text@.take(next as int));
        }
        let c = text.get_char(next);
        if c == '+' || c == '-' || c == '*' || c == '/' || c == '%' {
            count = count + 1;
            found = c;
        }
        next = next + 1;
    }
    proof {
        assert(text@.take(next as int) =~= text@);
    }
    let kind = if count != 1 {
        "expression"
    } else if found == '+' {
        "sum"
    } else if found == '-' {
        "subtract"
    } else if found == '*' {
        "multiply"
    } else if found == '/' {
        "divide"
    } else {
        "remainder"
    };
    ParsedQuery { kind: String::from_str(kind), value: query }
}

/// The text that the calculator works on: the parameter `query` without the
/// white space around it, unless that is empty or a single ASCII character.
pub open spec fn expression_of(pairs: Seq<(String, String)>) -> Option<Seq<char>> {
    match param_of(pairs, "query"@) {
        Some(text) => {
            let short = trimmed(text);
            if short.len() == 0 || (short.len() == 1 && (short[0] as u32) < 128) {
                None
            } else {
                Some(short)
            }
        },
        None => None,
    }
}

/// Picks the text that the calculator works on out of a query's parameters.
pub fn expression(query_strings: &Vec<(String, String)>) -> (text: Option<String>)
    ensures
        text is Some <==> expression_of(query_strings@) is Some,
        text is Some ==> text->0@ == expression_of(query_strings@)->0,
{
    match find_param(query_strings, "query") {
        Some(given) => {
            let short = trim(given.as_str());
            let length = short.as_str().unicode_len();
            if length == 0 || (length == 1 && (short.as_str().get_char(0) as u32) < 128) {
                None
            } else {
                Some(short)
            }
        },
        None => None,
    }
}

/// The document that shows a calculation: it carries the calculator's id,
/// category and data source, and the calculation as its payload.
pub fn calculator_document(payload: String) -> (doc: Document)
    ensures
        doc.id@ == DATA_SOURCE_ID@,
        doc.category is Some && doc.category->0@ == DATA_SOURCE_ID@,
        doc.payload == Some(payload),
        doc.title is None,
        doc.url is None,
        doc.icon is None,
        doc.source is Some,
        doc.source->0.kind is Some && doc.source->0.kind->0@ == "local"@,
        doc.source->0.name is Some && doc.source->0.name->0@ == DATA_SOURCE_ID@,
        doc.source->0.id is Some && doc.source->0.id->0@ == DATA_SOURCE_ID@,
        doc.source->0.icon is None,
{
    Document {
        id: String::from_str(DATA_SOURCE_ID),
        source: Some(
            DataSourceReference {
                kind: Some(String::from_str("local")),
                name: Some(String::from_str(DATA_SOURCE_ID)),
                id: Some(String::from_str(DATA_SOURCE_ID)),
                icon: None,
            },
        ),
        category: Some(String::from_str(DATA_SOURCE_ID)),
        title: None,
        url: None,
        icon: None,
        payload: Some(payload),
    }
}

/// What the calculator answers: the one document of a calculation that
/// succeeded, with the calculator's base score, or nothing.
pub fn calculator_response(source: QuerySource, result: Option<Document>, base_score: u64) -> (response:
    QueryResponse)
    ensures
        response.source == source,
        match result {
            Some(doc) => response.hits@ == seq![(doc, base_score)] && response.total_hits == 1,
            None => response.hits@ == Seq::<(Document, u64)>::empty() && response.total_hits == 0,
        },
{
    match result {
        Some(doc) => {
            let mut hits: Vec<(Document, u64)> = Vec::new();
            hits.push((doc, base_score));
            proof {
                assert(hits@ =~= seq![(doc, base_score)]);
            }
            QueryResponse { source, hits, total_hits: 1 }
        },
        None => QueryResponse { source, hits: Vec::new(), total_hits: 0 },
    }
}

} // verus!
