use vstd::prelude::*;
use vstd::string::StringExecFns;
use crate::common::document::{DataSourceReference, Document};
use crate::common::search::{find_param, param_of, QueryResponse, QuerySource};
use crate::common::text::{join, lowercase_of, to_lower};

verus! {

/// The id and the name of the application search, as a backend and as a data
/// source.
pub const QUERYSOURCE_ID_DATASOURCE_ID_DATASOURCE_NAME: &'static str = "Applications";

/// The id under which the tasks of the application search find their engine
/// state.
pub const APPLICATION_SEARCH_SOURCE_ID: &'static str = "application";

/// An application as the settings show it.
#[derive(Debug, PartialEq, Eq)]
pub struct AppEntry {
    pub path: String,
    pub name: String,
    pub icon_path: String,
    pub alias: String,
    pub hotkey: String,
    pub is_disabled: bool,
}

/// What is known of an application's files. Times are in milliseconds.
#[derive(Debug, PartialEq, Eq)]
pub struct AppMetadata {
    pub name: String,
    pub location: String,
    pub size: u64,
    pub icon: String,
    pub created: u128,
    pub modified: u128,
    pub last_opened: u128,
}

/// `hostname::get`: the name of this machine, or `None` where the system
/// does not tell it. Nothing is promised of the name.
#[verifier::external_body]
pub(crate) fn host_name() -> (name: Option<String>) {
    match hostname::get() {
        Ok(name) => Some(name.to_string_lossy().into_owned()),
        Err(_) => None,
    }
}

/// The identity of a backend that searches this machine: its name is the
/// machine's, or `fallback` where that is not known.
pub fn local_identity(host: Option<String>, fallback: &str, id: &str) -> (source: QuerySource)
    ensures
        source.kind@ == "local"@,
        source.id@ == id@,
        source.name@ == match host {
            Some(name) => name@,
            None => fallback@,
        },
{
    let name = match host {
        Some(name) => name,
        None => String::from_str(fallback),
    };
    QuerySource { kind: String::from_str("local"), name, id: String::from_str(id) }
}

/// The backend that searches the applications of this machine.
#[derive(Debug, PartialEq, Eq)]
pub struct ApplicationSearchSource;

impl ApplicationSearchSource {
    /// Tells who the backend is. Its name is the machine's, whatever that
    /// is, or `My Computer` where the machine does not tell.
    pub fn get_type(&self) -> (source: QuerySource)
        ensures
            source.kind@ == "local"@,
            source.id@ == QUERYSOURCE_ID_DATASOURCE_ID_DATASOURCE_NAME@,
    {
        local_identity(host_name(), "My Computer", QUERYSOURCE_ID_DATASOURCE_ID_DATASOURCE_NAME)
    }
}

/// The text that the application search looks for: the parameter `query` in
/// lower case; `None` where the parameter is missing or empty.
pub open spec fn wanted_text(pairs: Seq<(String, String)>) -> Option<Seq<char>> {
    match param_of(pairs, "query"@) {
        Some(text) => if lowercase_of(text).len() == 0 {
            None
        } else {
            Some(lowercase_of(text))
        },
        None => None,
    }
}

/// Picks the text that the application search looks for out of a query's
/// parameters.
pub fn query_text(query_strings: &Vec<(String, String)>) -> (text: Option<String>)
    ensures
        text is Some <==> wanted_text(query_strings@) is Some,
        text is Some ==> text->0@ == wanted_text(query_strings@)->0,
{
    match find_param(query_strings, "query") {
        Some(given) => {
            let lower = to_lower(given.as_str());
            if lower.as_str().is_empty() {
                None
            } else {
                Some(lower)
            }
        },
        None => None,
    }
}

/// The query that asks the engine for the applications whose name matches a
/// text or starts with it.
pub open spec fn search_dsl(text: Seq<char>) -> Seq<char> {
    "{ \"query\": { \"bool\": { \"should\": [ { \"match\": { \"app_name\": \""@ + text
        + "\" } }, { \"prefix\": { \"app_name\": \""@ + text + "\" } } ] } } }"@
}

/// Writes the query that asks the engine for the applications whose name
/// matches a text or starts with it.
pub fn build_search_dsl(text: &str) -> (dsl: String)
    ensures
        dsl@ == search_dsl(text@),
{
    let head = String::from_str(
        "{ \"query\": { \"bool\": { \"should\": [ { \"match\": { \"app_name\": \"",
    );
    let dsl = head.concat(text).concat("\" } }, { \"prefix\": { \"app_name\": \"").concat(
        text,
    ).concat("\" } } ] } } }");
    dsl
}

/// Whether an application goes into the index: it has a name, and is not
/// this program itself.
pub fn should_index(app_name: &String, package_name: &String) -> (indexed: bool)
    ensures
        indexed == (app_name@.len() > 0 && app_name@ != package_name@),
{
    !app_name.as_str().is_empty() && !(*app_name == *package_name)
}

/// The document that stands for an application: its path is its id and its
/// address, its name its title.
pub fn application_document(app_name: String, app_path: String, app_icon_path: String) -> (doc:
    Document)
    ensures
        doc.id == app_path,
        doc.url == Some(app_path),
        doc.title == Some(app_name),
        doc.icon == Some(app_icon_path),
        doc.category is Some && doc.category->0@ == "Application"@,
        doc.payload is None,
        doc.source is Some,
        doc.source->0.kind is Some && doc.source->0.kind->0@ == "local"@,
        doc.source->0.name is Some && doc.source->0.name->0@
            == QUERYSOURCE_ID_DATASOURCE_ID_DATASOURCE_NAME@,
        doc.source->0.id is Some && doc.source->0.id->0@
            == QUERYSOURCE_ID_DATASOURCE_ID_DATASOURCE_NAME@,
        doc.source->0.icon is None,
{
    Document {
        id: app_path.clone(),
        source: Some(
            DataSourceReference {
                kind: Some(String::from_str("local")),
                name: Some(String::from_str(QUERYSOURCE_ID_DATASOURCE_ID_DATASOURCE_NAME)),
                id: Some(String::from_str(QUERYSOURCE_ID_DATASOURCE_ID_DATASOURCE_NAME)),
                icon: None,
            },
        ),
        category: Some(String::from_str("Application")),
        title: Some(app_name),
        url: Some(app_path),
        icon: Some(app_icon_path),
        payload: None,
    }
}

/// Some text of `list` is `text`.
pub open spec fn listed(list: Seq<String>, text: Seq<char>) -> bool {
    exists|i: int| 0 <= i < list.len() && (#[trigger] list[i])@ == text
}

/// The place of the first text of `list` that is `text`.
pub fn position(list: &Vec<String>, text: &String) -> (place: Option<usize>)
    ensures
        place is Some <==> listed(list@, text@),
        place is Some ==> {
            &&& place->0 < list@.len()
            &&& list@[place->0 as int]@ == text@
            &&& forall|i: int| 0 <= i < place->0 ==> (#[trigger] list@[i])@ != text@
        },
{
    let mut next: usize = 0;
    while next < list.len()
        invariant
            next <= list.len(),
            forall|i: int| 0 <= i < next ==> (#[trigger] list@[i])@ != text@,
        decreases list.len() - next,
    {
        if list[next] == *text {
            return Some(next);
        }
        next = next + 1;
    }
    None
}

/// The hits whose document is not on the list of disabled applications, in
/// their order.
pub open spec fn enabled_of(hits: Seq<(Document, u64)>, disabled: Seq<String>) -> Seq<
    (Document, u64),
>
    decreases hits.len(),
{
    if hits.len() == 0 {
        Seq::empty()
    } else if listed(disabled, hits.last().0.id@) {
        enabled_of(hits.drop_last(), disabled)
    } else {
        enabled_of(hits.drop_last(), disabled).push(hits.last())
    }
}

/// Leaves out the hits for applications that are disabled.
pub fn retain_enabled(hits: &Vec<(Document, u64)>, disabled: &Vec<String>) -> (kept: Vec<
    (Document, u64),
>)
    ensures
        kept@ == enabled_of(hits@, disabled@),
{
    let mut kept: Vec<(Document, u64)> = Vec::new();
    let mut next: usize = 0;
    while next < hits.len()
        invariant
            next <= hits.len(),
            kept@ == enabled_of(hits@.take(next as int), disabled@),
        decreases hits.len() - next,
    {
        proof {
            assert(hits@.take(next + 1).drop_last() =~= hits@.take(next as int));
        }
        if position(disabled, &hits[next].0.id).is_none() {
            kept.push((hits[next].0.clone(), hits[next].1));
        }
        next = next + 1;
    }
    proof {
        assert(hits@.take(next as int) =~= hits@);
    }
    kept
}

/// What the application search answers with the hits that the engine found.
pub fn application_response(source: QuerySource, hits: Vec<(Document, u64)>, total_hits: usize) -> (response:
    QueryResponse)
    ensures
        response.source == source,
        response.hits == hits,
        response.total_hits == total_hits,
{
    QueryResponse { source, hits, total_hits }
}

/// Puts an application on the list of those that are left out of searches.
/// An application that is on the list already is an error, and the list
/// stays as it is.
pub fn disable_app_search(disabled: &mut Vec<String>, app_path: String) -> (result: Result<
    (),
    String,
>)
    ensures
        result is Err <==> listed(old(disabled)@, app_path@),
        result is Err ==> final(disabled)@ == old(disabled)@ && result->Err_0@
            == "trying to disable an app that is disabled ["@ + app_path@ + "]"@,
        result is Ok ==> final(disabled)@ == old(disabled)@.push(app_path),
{
    match position(disabled, &app_path) {
        Some(_) => Err(
            join("trying to disable an app that is disabled [", app_path.as_str()).concat("]"),
        ),
        None => {
            disabled.push(app_path);
            Ok(())
        },
    }
}

/// Takes an application off the list of those that are left out of
/// searches: its first entry goes. An application that is not on the list is
/// an error, and the list stays as it is.
pub fn enable_app_search(disabled: &mut Vec<String>, app_path: String) -> (result: Result<
    (),
    String,
>)
    ensures
        result is Ok <==> listed(old(disabled)@, app_path@),
        result is Err ==> final(disabled)@ == old(disabled)@ && result->Err_0@
            == "trying to enable an app that is not disabled ["@ + app_path@ + "]"@,
        result is Ok ==> exists|at: int|
            {
                &&& 0 <= at < old(disabled)@.len()
                &&& old(disabled)@[at]@ == app_path@
                &&& forall|i: int| 0 <= i < at ==> (#[trigger] old(disabled)@[i])@ != app_path@
                &&& final(disabled)@ == old(disabled)@.remove(at)
            },
{
    match position(disabled, &app_path) {
        Some(at) => {
            let _ = disabled.remove(at);
            Ok(())
        },
        None => Err(
            join("trying to enable an app that is not disabled [", app_path.as_str()).concat("]"),
        ),
    }
}

/// Adds a directory to those that are searched for applications, unless it
/// is among them already.
pub fn add_app_search_path(search_paths: &mut Vec<String>, search_path: String)
    ensures
        listed(old(search_paths)@, search_path@) ==> final(search_paths)@ == old(search_paths)@,
        !listed(old(search_paths)@, search_path@) ==> final(search_paths)@ == old(
            search_paths,
        )@.push(search_path),
{
    if position(search_paths, &search_path).is_none() {
        search_paths.push(search_path);
    }
}

/// Takes a directory off those that are searched for applications: its
/// first entry goes. A directory that is not among them changes nothing.
pub fn remove_app_search_path(search_paths: &mut Vec<String>, search_path: String)
    ensures
        !listed(old(search_paths)@, search_path@) ==> final(search_paths)@ == old(search_paths)@,
        listed(old(search_paths)@, search_path@) ==> exists|at: int|
            {
                &&& 0 <= at < old(search_paths)@.len()
                &&& old(search_paths)@[at]@ == search_path@
                &&& forall|i: int|
                    0 <= i < at ==> (#[trigger] old(search_paths)@[i])@ != search_path@
                &&& final(search_paths)@ == old(search_paths)@.remove(at)
            },
{
    match position(search_paths, &search_path) {
        Some(at) => {
            let _ = search_paths.remove(at);
        },
        None => {},
    }
}

/// The paths of `current` that are not among `stored`, in their order.
pub open spec fn fresh_of(current: Seq<String>, stored: Seq<String>) -> Seq<String>
    decreases current.len(),
{
    if current.len() == 0 {
        Seq::empty()
    } else if listed(stored, current.last()@) {
        fresh_of(current.drop_last(), stored)
    } else {
        fresh_of(current.drop_last(), stored).push(current.last())
    }
}

/// Finds the applications that are installed now and were not known before.
pub fn new_app_paths(current: &Vec<String>, stored: &Vec<String>) -> (fresh: Vec<String>)
    ensures
        fresh@ == fresh_of(current@, stored@),
{
    let mut fresh: Vec<String> = Vec::new();
    let mut next: usize = 0;
    while next < current.len()
        invariant
            next <= current.len(),
            fresh@ == fresh_of(current@.take(next as int), stored@),
        decreases current.len() - next,
    {
        proof {
            assert(current@.take(next + 1).drop_last() =~= current@.take(next as int));
        }
        if position(stored, &current[next]).is_none() {
            fresh.push(current[next].clone());
        }
        next = next + 1;
    }
    proof {
        assert(current@.take(next as int) =~= current@);
    }
    fresh
}

} // verus!
