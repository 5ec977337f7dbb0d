use coco_search::common::document::Document;
use coco_search::common::error::SearchError;
use coco_search::common::search::{QueryHits, QueryResponse, QuerySource};
use coco_search::score::score_rank;
use coco_search::search::outcome::SearchOutcome;
use coco_search::search::{checked_fuse_outcomes, fuse_outcomes, select_sources};

fn source(id: &str) -> QuerySource {
    QuerySource {
        kind: "test".to_string(),
        name: format!("backend {}", id),
        id: id.to_string(),
    }
}

fn answer(id: &str, hits: &[(&str, f64)]) -> SearchOutcome {
    SearchOutcome::Completed(QueryResponse {
        source: source(id),
        hits: hits
            .iter()
            .map(|(doc, score)| (Document::with_id(doc.to_string()), score.to_bits()))
            .collect(),
        total_hits: hits.len(),
    })
}

fn scores(hits: &[QueryHits]) -> Vec<f64> {
    hits.iter().map(|hit| f64::from_bits(hit.score)).collect()
}

fn ids(hits: &[QueryHits]) -> Vec<String> {
    hits.iter().map(|hit| hit.document.id.clone()).collect()
}

fn from_source(hits: &[QueryHits], id: &str) -> usize {
    hits.iter()
        .filter(|hit| hit.source.as_ref().map(|s| s.id.as_str()) == Some(id))
        .count()
}

fn five(prefix: &str, top: f64) -> Vec<(String, f64)> {
    (0..5)
        .map(|i| (format!("{}{}", prefix, i), top - i as f64))
        .collect()
}

fn borrowed(hits: &[(String, f64)]) -> Vec<(&str, f64)> {
    hits.iter().map(|(id, score)| (id.as_str(), *score)).collect()
}

#[test]
fn two_backends_share_the_page_and_a_timeout_is_recorded() {
    let a = five("a", 9.0);
    let b = five("b", 8.5);
    let outcomes = vec![
        answer("A", &borrowed(&a)),
        answer("B", &borrowed(&b)),
        SearchOutcome::TimedOut(source("C")),
    ];
    let page = fuse_outcomes(&outcomes, 6);
    assert_eq!(scores(&page.hits), vec![9.0, 8.5, 8.0, 7.5, 7.0, 6.5]);
    assert_eq!(ids(&page.hits), vec!["a0", "b0", "a1", "b1", "a2", "b2"]);
    assert_eq!(from_source(&page.hits, "A"), 3);
    assert_eq!(from_source(&page.hits, "B"), 3);
    assert_eq!(page.total_hits, 10);
    assert_eq!(page.failed.len(), 1);
    assert_eq!(page.failed[0].source, Some(source("C")));
    assert_eq!(page.failed[0].status, 0);
    assert_eq!(page.failed[0].reason.as_deref(), Some("timeout"));
    assert_eq!(page.failed[0].error.as_deref(), Some("deadline has elapsed"));
}

#[test]
fn a_document_that_two_backends_return_survives_once() {
    let outcomes = vec![
        answer("A", &[("dup", 3.0), ("a1", 2.0)]),
        answer("B", &[("dup", 5.0), ("b1", 1.0)]),
    ];
    let page = fuse_outcomes(&outcomes, 10);
    let found = ids(&page.hits);
    assert_eq!(found.iter().filter(|id| id.as_str() == "dup").count(), 1);
    assert_eq!(found, vec!["dup", "a1", "b1"]);
    // the backend that had its turn first keeps the document
    assert_eq!(page.hits[0].source, Some(source("A")));
    assert_eq!(scores(&page.hits), vec![3.0, 2.0, 1.0]);
    assert_eq!(page.total_hits, 4);
}

#[test]
fn no_document_occurs_twice_on_a_page() {
    let outcomes = vec![
        answer("A", &[("x", 1.0), ("y", 4.0), ("x", 9.0)]),
        answer("B", &[("y", 2.0), ("z", 3.0), ("x", 7.0)]),
        answer("C", &[("z", 8.0)]),
    ];
    for size in 0..8u64 {
        let page = fuse_outcomes(&outcomes, size);
        let mut found = ids(&page.hits);
        let before = found.len();
        found.sort();
        found.dedup();
        assert_eq!(found.len(), before);
    }
}

#[test]
fn a_page_never_holds_more_than_its_size() {
    let a = five("a", 9.0);
    let b = five("b", 8.5);
    let outcomes = vec![answer("A", &borrowed(&a)), answer("B", &borrowed(&b))];
    for size in 0..14u64 {
        let page = fuse_outcomes(&outcomes, size);
        assert!(page.hits.len() as u64 <= size);
        assert_eq!(page.hits.len() as u64, size.min(10));
    }
}

#[test]
fn a_page_of_size_zero_is_empty_but_counts_and_failures_stay() {
    let outcomes = vec![
        answer("A", &[("a", 1.0)]),
        SearchOutcome::Rejected(source("B"), SearchError::Timeout),
    ];
    let page = fuse_outcomes(&outcomes, 0);
    assert!(page.hits.is_empty());
    assert_eq!(page.total_hits, 1);
    assert_eq!(page.failed.len(), 1);
}

#[test]
fn a_round_without_backends_is_empty() {
    let page = fuse_outcomes(&Vec::new(), 10);
    assert!(page.hits.is_empty());
    assert!(page.failed.is_empty());
    assert_eq!(page.total_hits, 0);
}

#[test]
fn a_page_is_in_descending_order_of_score() {
    let outcomes = vec![
        answer("A", &[("a", -1.5), ("b", 0.0), ("c", 2.25)]),
        answer("B", &[("d", 1e300), ("e", -1e-300), ("f", 0.5)]),
        answer("C", &[("g", -7.0)]),
    ];
    let page = fuse_outcomes(&outcomes, 7);
    let found = scores(&page.hits);
    assert_eq!(found, vec![1e300, 2.25, 0.5, 0.0, -1e-300, -1.5, -7.0]);
    for pair in found.windows(2) {
        assert!(pair[0] >= pair[1]);
    }
}

#[test]
fn failures_do_not_stop_the_round() {
    let outcomes = vec![
        SearchOutcome::Rejected(source("down"), SearchError::HttpError("refused".to_string())),
        answer("A", &[("a", 2.0), ("b", 1.0)]),
        SearchOutcome::TimedOut(source("slow")),
        answer("B", &[("c", 3.0)]),
        SearchOutcome::Aborted("task 7 panicked".to_string()),
    ];
    let page = fuse_outcomes(&outcomes, 10);
    assert_eq!(ids(&page.hits), vec!["c", "a", "b"]);
    assert_eq!(page.total_hits, 3);
    assert_eq!(page.failed.len(), 3);

    assert_eq!(page.failed[0].source, Some(source("down")));
    assert_eq!(
        page.failed[0].error.as_deref(),
        Some("HTTP request failed: refused")
    );
    assert_eq!(page.failed[0].reason, None);

    assert_eq!(page.failed[1].source, Some(source("slow")));
    assert_eq!(page.failed[1].reason.as_deref(), Some("timeout"));

    assert_eq!(page.failed[2].source, None);
    assert_eq!(page.failed[2].error.as_deref(), Some("task 7 panicked"));
    assert_eq!(page.failed[2].reason, None);
    assert_eq!(page.failed[2].status, 0);
}

#[test]
fn each_of_two_full_backends_gets_half_of_the_page() {
    let a: Vec<(String, f64)> = (0..8).map(|i| (format!("a{}", i), 100.0 - i as f64)).collect();
    let b: Vec<(String, f64)> = (0..8).map(|i| (format!("b{}", i), 10.0 - i as f64)).collect();
    let outcomes = vec![answer("A", &borrowed(&a)), answer("B", &borrowed(&b))];
    for size in [2u64, 4, 6, 8] {
        let page = fuse_outcomes(&outcomes, size);
        assert_eq!(page.hits.len() as u64, size);
        assert_eq!(from_source(&page.hits, "A") as u64, size / 2);
        assert_eq!(from_source(&page.hits, "B") as u64, size / 2);
    }
    // with an odd size each gets its share, and the best hit left fills the page
    let page = fuse_outcomes(&outcomes, 7);
    assert_eq!(from_source(&page.hits, "A"), 4);
    assert_eq!(from_source(&page.hits, "B"), 3);
}

#[test]
fn what_a_small_backend_leaves_goes_to_the_best_hits_left() {
    let big: Vec<(String, f64)> = (0..10).map(|i| (format!("b{}", i), 50.0 - i as f64)).collect();
    let outcomes = vec![answer("small", &[("s", 1.0)]), answer("big", &borrowed(&big))];
    let page = fuse_outcomes(&outcomes, 6);
    assert_eq!(
        ids(&page.hits),
        vec!["b0", "b1", "b2", "b3", "b4", "s"]
    );
    assert_eq!(from_source(&page.hits, "small"), 1);
    assert_eq!(from_source(&page.hits, "big"), 5);
}

#[test]
fn a_backend_is_cut_to_its_share_by_score_not_by_arrival() {
    let outcomes = vec![
        answer("A", &[("low", 1.0), ("high", 9.0), ("mid", 5.0)]),
        answer("B", &[("b1", 100.0), ("b2", 99.0), ("b3", 98.0)]),
    ];
    let page = fuse_outcomes(&outcomes, 2);
    assert_eq!(ids(&page.hits), vec!["b1", "high"]);
}

#[test]
fn hits_of_equal_score_keep_their_order() {
    let outcomes = vec![answer("A", &[("first", 1.0), ("second", 1.0), ("third", 1.0)])];
    let page = fuse_outcomes(&outcomes, 3);
    assert_eq!(ids(&page.hits), vec!["first", "second", "third"]);
}

#[test]
fn a_backend_without_hits_takes_no_share() {
    let outcomes = vec![
        answer("empty", &[]),
        answer("A", &[("a1", 3.0), ("a2", 2.0), ("a3", 1.0)]),
    ];
    let page = fuse_outcomes(&outcomes, 3);
    assert_eq!(ids(&page.hits), vec!["a1", "a2", "a3"]);
}

#[test]
fn the_total_is_the_sum_of_what_the_backends_report() {
    let mut first = answer("A", &[("a", 1.0)]);
    if let SearchOutcome::Completed(response) = &mut first {
        response.total_hits = 1200;
    }
    let mut second = answer("B", &[("a", 1.0)]);
    if let SearchOutcome::Completed(response) = &mut second {
        response.total_hits = 34;
    }
    let page = fuse_outcomes(&vec![first, second], 5);
    assert_eq!(page.total_hits, 1234);
    assert_eq!(page.hits.len(), 1);
}

#[test]
fn a_total_beyond_the_machine_word_is_not_fused() {
    let mut first = answer("A", &[("a", 1.0)]);
    if let SearchOutcome::Completed(response) = &mut first {
        response.total_hits = usize::MAX;
    }
    let second = answer("B", &[("b", 1.0)]);
    assert!(checked_fuse_outcomes(&vec![first, second], 5).is_none());

    let mut alone = answer("A", &[("a", 1.0)]);
    if let SearchOutcome::Completed(response) = &mut alone {
        response.total_hits = usize::MAX;
    }
    let page = checked_fuse_outcomes(&vec![alone], 5).unwrap();
    assert_eq!(page.total_hits, usize::MAX);
}

#[test]
fn the_rank_orders_scores_as_numbers() {
    let samples = [
        f64::NEG_INFINITY,
        -1e300,
        -2.5,
        -1.0,
        -1e-300,
        0.0,
        1e-300,
        0.5,
        1.0,
        2000.0,
        1e300,
        f64::INFINITY,
    ];
    for a in samples {
        for b in samples {
            assert_eq!(
                score_rank(a.to_bits()) < score_rank(b.to_bits()),
                a < b,
                "{} against {}",
                a,
                b
            );
        }
    }
    assert_eq!(score_rank(0.0f64.to_bits()), 0x8000_0000_0000_0000);
    assert_eq!(score_rank((-0.0f64).to_bits()), 0x7fff_ffff_ffff_ffff);
    assert_eq!(score_rank(1.0f64.to_bits()), 0xbff0_0000_0000_0000);
    assert!(score_rank(f64::NAN.to_bits()) > score_rank(f64::INFINITY.to_bits()));
}

#[test]
fn the_parameter_querysource_restricts_the_round() {
    let identities = vec![source("A"), source("X"), source("B")];
    let everyone = select_sources(&identities, &vec![("query".to_string(), "x".to_string())]);
    assert_eq!(everyone, vec![0, 1, 2]);
    let only = select_sources(
        &identities,
        &vec![
            ("query".to_string(), "x".to_string()),
            ("querysource".to_string(), "X".to_string()),
        ],
    );
    assert_eq!(only, vec![1]);
    let nobody = select_sources(
        &identities,
        &vec![("querysource".to_string(), "gone".to_string())],
    );
    assert!(nobody.is_empty());
}

#[test]
fn failures_leave_no_trace_in_the_hits() {
    let a = five("a", 9.0);
    let b = five("b", 8.5);
    let with_failures = vec![
        SearchOutcome::Aborted("broken".to_string()),
        answer("A", &borrowed(&a)),
        SearchOutcome::Rejected(source("C"), SearchError::ParseError("eof".to_string())),
        answer("B", &borrowed(&b)),
        SearchOutcome::TimedOut(source("D")),
    ];
    let answers_alone = vec![answer("A", &borrowed(&a)), answer("B", &borrowed(&b))];
    for size in 0..12u64 {
        let page = fuse_outcomes(&with_failures, size);
        let plain = fuse_outcomes(&answers_alone, size);
        assert_eq!(page.hits, plain.hits);
        assert_eq!(page.total_hits, plain.total_hits);
        assert_eq!(page.failed.len(), 3);
        assert!(plain.failed.is_empty());
    }
}
