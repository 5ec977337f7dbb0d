use coco_search::common::document::Document;
use coco_search::common::search::QuerySource;
use coco_search::common::table::KeyedTable;
use coco_search::server::search::{CocoSearchSource, DocumentsSizedCollector};
use coco_search::common::search::SearchQuery;
use coco_search::common::server::{AuthProvider, Provider, Server, Sso, Version};

fn doc(id: &str) -> Document {
    Document::with_id(id.to_string())
}

fn ids(documents: &[Document]) -> Vec<&str> {
    documents.iter().map(|d| d.id.as_str()).collect()
}

fn server(id: &str, name: &str) -> Server {
    Server {
        id: id.to_string(),
        builtin: false,
        enabled: true,
        name: name.to_string(),
        endpoint: "https://example.com".to_string(),
        provider: Provider {
            name: "".to_string(),
            icon: "".to_string(),
            website: "".to_string(),
            eula: "".to_string(),
            privacy_policy: "".to_string(),
            banner: "".to_string(),
            description: "".to_string(),
        },
        version: Version { number: "".to_string() },
        minimal_client_version: None,
        updated: "".to_string(),
        public: true,
        available: true,
        health: None,
        profile: None,
        auth_provider: AuthProvider { sso: Sso { url: "".to_string() } },
        priority: 0,
    }
}

#[test]
fn the_collector_keeps_documents_in_descending_order() {
    let mut collector = DocumentsSizedCollector::new(10);
    for (id, score) in [("c", 1.0f64), ("a", 3.0), ("d", -2.0), ("b", 2.0)] {
        collector.push("s".to_string(), doc(id), score.to_bits());
    }
    assert_eq!(ids(&collector.documents()), vec!["a", "b", "c", "d"]);
}

#[test]
fn the_collector_drops_what_is_beyond_its_size() {
    let mut collector = DocumentsSizedCollector::new(2);
    collector.push("s".to_string(), doc("low"), 1.0f64.to_bits());
    collector.push("s".to_string(), doc("high"), 5.0f64.to_bits());
    collector.push("s".to_string(), doc("mid"), 3.0f64.to_bits());
    collector.push("s".to_string(), doc("lowest"), 0.5f64.to_bits());
    assert_eq!(ids(&collector.documents()), vec!["high", "mid"]);
}

#[test]
fn a_collector_of_size_zero_stays_empty() {
    let mut collector = DocumentsSizedCollector::new(0);
    collector.push("s".to_string(), doc("a"), 1.0f64.to_bits());
    assert!(collector.documents().is_empty());
}

#[test]
fn documents_of_equal_score_stay_in_the_order_in_which_they_came() {
    let mut collector = DocumentsSizedCollector::new(3);
    collector.push("s".to_string(), doc("first"), 1.0f64.to_bits());
    collector.push("s".to_string(), doc("second"), 1.0f64.to_bits());
    collector.push("s".to_string(), doc("third"), 1.0f64.to_bits());
    collector.push("s".to_string(), doc("late"), 1.0f64.to_bits());
    assert_eq!(ids(&collector.documents()), vec!["first", "second", "third"]);
}

#[test]
fn collected_documents_come_out_with_their_sources() {
    let mut sources: KeyedTable<QuerySource> = KeyedTable::new();
    sources.insert(
        "s1".to_string(),
        QuerySource {
            kind: "coco-servers".to_string(),
            name: "One".to_string(),
            id: "s1".to_string(),
        },
    );
    let mut collector = DocumentsSizedCollector::new(5);
    collector.push("s1".to_string(), doc("a"), 1.0f64.to_bits());
    collector.push("unknown".to_string(), doc("b"), 2.0f64.to_bits());
    let hits = collector.documents_with_sources(&sources);
    assert_eq!(hits.len(), 2);
    assert_eq!(hits[0].document.id, "b");
    assert_eq!(hits[0].source, None);
    assert_eq!(f64::from_bits(hits[0].score), 2.0);
    assert_eq!(hits[1].document.id, "a");
    assert_eq!(hits[1].source.as_ref().unwrap().name, "One");
}

#[test]
fn a_server_backend_has_the_identity_of_its_server() {
    let source = CocoSearchSource::new(server("srv-1", "My Server"));
    let identity = source.get_type();
    assert_eq!(identity.kind, "coco-servers");
    assert_eq!(identity.id, "srv-1");
    assert_eq!(identity.name, "My Server");
}

#[test]
fn a_query_is_sent_with_its_window_and_its_parameters() {
    let query = SearchQuery::new(
        20,
        10,
        vec![
            ("query".to_string(), "report".to_string()),
            ("size".to_string(), "5".to_string()),
        ],
        1000,
    );
    let args = CocoSearchSource::query_args(&query);
    assert_eq!(args.len(), 3);
    assert_eq!(args.get("from").unwrap(), "20");
    // a parameter of the query takes the place of the window's
    assert_eq!(args.get("size").unwrap(), "5");
    assert_eq!(args.get("query").unwrap(), "report");
}

#[test]
fn a_hit_without_a_score_counts_as_zero() {
    let source = CocoSearchSource::new(server("srv-1", "My Server"));
    let response = source.response(
        7,
        &vec![(doc("a"), Some(1.5f64.to_bits())), (doc("b"), None)],
    );
    assert_eq!(response.total_hits, 7);
    assert_eq!(response.source.id, "srv-1");
    assert_eq!(response.hits.len(), 2);
    assert_eq!(f64::from_bits(response.hits[0].1), 1.5);
    assert_eq!(f64::from_bits(response.hits[1].1), 0.0);
    assert_eq!(response.hits[1].0.id, "b");
}
