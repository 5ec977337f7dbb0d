use coco_search::common::document::Document;
use coco_search::common::search::QuerySource;
use coco_search::local::application::{
    add_app_search_path, application_document, application_response, build_search_dsl,
    disable_app_search, enable_app_search, local_identity, new_app_paths, position, query_text,
    remove_app_search_path, retain_enabled, should_index, ApplicationSearchSource,
};
use coco_search::local::calculator::{
    calculator_document, calculator_response, expression, parse_query,
};

fn pairs(list: &[(&str, &str)]) -> Vec<(String, String)> {
    list.iter().map(|(k, v)| (k.to_string(), v.to_string())).collect()
}

fn strings(list: &[&str]) -> Vec<String> {
    list.iter().map(|s| s.to_string()).collect()
}

#[test]
fn a_calculation_with_one_operator_is_named_after_it() {
    for (text, kind) in [
        ("1 + 2", "sum"),
        ("7-3", "subtract"),
        ("2*3", "multiply"),
        ("8 / 2", "divide"),
        ("8 % 3", "remainder"),
        ("1 + 2 + 3", "expression"),
        ("2 * (3 - 1)", "expression"),
        ("sqrt(2)", "expression"),
        ("", "expression"),
        ("+", "sum"),
    ] {
        let parsed = parse_query(text.to_string());
        assert_eq!(parsed.kind, kind, "{}", text);
        assert_eq!(parsed.value, text);
    }
}

#[test]
fn the_calculator_works_on_the_trimmed_query() {
    assert_eq!(expression(&pairs(&[("query", "  1+2  ")])), Some("1+2".to_string()));
    assert_eq!(expression(&pairs(&[("query", "12")])), Some("12".to_string()));
    assert_eq!(expression(&pairs(&[("other", "1+2")])), None);
    assert_eq!(expression(&pairs(&[("query", "")])), None);
    assert_eq!(expression(&pairs(&[("query", "   ")])), None);
    // a single character of one byte is not worth a calculation
    assert_eq!(expression(&pairs(&[("query", "7")])), None);
    assert_eq!(expression(&pairs(&[("query", " x ")])), None);
    // a single character of more bytes is handed on
    assert_eq!(expression(&pairs(&[("query", "π")])), Some("π".to_string()));
}

#[test]
fn a_calculation_is_shown_as_one_document() {
    let doc = calculator_document("{\"result\":3}".to_string());
    assert_eq!(doc.id, "Calculator");
    assert_eq!(doc.category.as_deref(), Some("Calculator"));
    assert_eq!(doc.payload.as_deref(), Some("{\"result\":3}"));
    let reference = doc.source.clone().unwrap();
    assert_eq!(reference.kind.as_deref(), Some("local"));
    assert_eq!(reference.name.as_deref(), Some("Calculator"));
    assert_eq!(reference.id.as_deref(), Some("Calculator"));
    assert_eq!(reference.icon, None);
    assert_eq!(doc.title, None);

    let source = local_identity(Some("host".to_string()), "Calculator", "Calculator");
    let response = calculator_response(source.clone(), Some(doc.clone()), 2000f64.to_bits());
    assert_eq!(response.total_hits, 1);
    assert_eq!(response.hits, vec![(doc, 2000f64.to_bits())]);
    assert_eq!(response.source, source);
    let nothing = calculator_response(source, None, 2000f64.to_bits());
    assert_eq!(nothing.total_hits, 0);
    assert!(nothing.hits.is_empty());
}

#[test]
fn a_local_backend_is_named_after_the_machine() {
    assert_eq!(
        local_identity(Some("box".to_string()), "My Computer", "Applications"),
        QuerySource {
            kind: "local".to_string(),
            name: "box".to_string(),
            id: "Applications".to_string()
        }
    );
    assert_eq!(
        local_identity(None, "My Computer", "Applications").name,
        "My Computer"
    );
    let identity = ApplicationSearchSource.get_type();
    assert_eq!(identity.kind, "local");
    assert_eq!(identity.id, "Applications");
}

#[test]
fn applications_are_looked_for_in_lower_case() {
    assert_eq!(query_text(&pairs(&[("query", "FireFox")])), Some("firefox".to_string()));
    assert_eq!(query_text(&pairs(&[("query", "ÉCLAIR")])), Some("éclair".to_string()));
    assert_eq!(query_text(&pairs(&[("query", "")])), None);
    assert_eq!(query_text(&pairs(&[("size", "3")])), None);
}

#[test]
fn the_engine_is_asked_for_a_match_or_a_prefix() {
    assert_eq!(
        build_search_dsl("fire"),
        "{ \"query\": { \"bool\": { \"should\": [ { \"match\": { \"app_name\": \"fire\" } }, { \"prefix\": { \"app_name\": \"fire\" } } ] } } }"
    );
}

#[test]
fn an_application_without_a_name_or_this_program_is_not_indexed() {
    let me = "Coco AI".to_string();
    assert!(should_index(&"Firefox".to_string(), &me));
    assert!(!should_index(&"".to_string(), &me));
    assert!(!should_index(&"Coco AI".to_string(), &me));
}

#[test]
fn an_application_becomes_a_document() {
    let doc = application_document(
        "Firefox".to_string(),
        "/apps/firefox.desktop".to_string(),
        "/icons/firefox.png".to_string(),
    );
    assert_eq!(doc.id, "/apps/firefox.desktop");
    assert_eq!(doc.url.as_deref(), Some("/apps/firefox.desktop"));
    assert_eq!(doc.title.as_deref(), Some("Firefox"));
    assert_eq!(doc.icon.as_deref(), Some("/icons/firefox.png"));
    assert_eq!(doc.category.as_deref(), Some("Application"));
    assert_eq!(doc.payload, None);
    let reference = doc.source.unwrap();
    assert_eq!(reference.kind.as_deref(), Some("local"));
    assert_eq!(reference.name.as_deref(), Some("Applications"));
    assert_eq!(reference.id.as_deref(), Some("Applications"));
}

#[test]
fn hits_for_disabled_applications_are_left_out() {
    let hits = vec![
        (Document::with_id("/a".to_string()), 3),
        (Document::with_id("/b".to_string()), 2),
        (Document::with_id("/c".to_string()), 1),
    ];
    let kept = retain_enabled(&hits, &strings(&["/b", "/zzz"]));
    assert_eq!(kept.len(), 2);
    assert_eq!(kept[0].0.id, "/a");
    assert_eq!(kept[1], (Document::with_id("/c".to_string()), 1));
    assert_eq!(retain_enabled(&hits, &Vec::new()), hits);
    let response = application_response(
        local_identity(None, "My Computer", "Applications"),
        kept,
        3,
    );
    assert_eq!(response.total_hits, 3);
    assert_eq!(response.hits.len(), 2);
}

#[test]
fn disabling_an_application_twice_is_an_error() {
    let mut disabled = Vec::new();
    assert_eq!(disable_app_search(&mut disabled, "/a".to_string()), Ok(()));
    assert_eq!(disable_app_search(&mut disabled, "/b".to_string()), Ok(()));
    assert_eq!(
        disable_app_search(&mut disabled, "/a".to_string()),
        Err("trying to disable an app that is disabled [/a]".to_string())
    );
    assert_eq!(disabled, strings(&["/a", "/b"]));
}

#[test]
fn enabling_an_application_that_is_not_disabled_is_an_error() {
    let mut disabled = strings(&["/a", "/b", "/a"]);
    assert_eq!(enable_app_search(&mut disabled, "/a".to_string()), Ok(()));
    assert_eq!(disabled, strings(&["/b", "/a"]));
    assert_eq!(
        enable_app_search(&mut disabled, "/c".to_string()),
        Err("trying to enable an app that is not disabled [/c]".to_string())
    );
    assert_eq!(disabled, strings(&["/b", "/a"]));
}

#[test]
fn search_paths_are_added_once_and_removed_quietly() {
    let mut paths = strings(&["/usr/share"]);
    add_app_search_path(&mut paths, "/opt".to_string());
    add_app_search_path(&mut paths, "/usr/share".to_string());
    assert_eq!(paths, strings(&["/usr/share", "/opt"]));
    remove_app_search_path(&mut paths, "/usr/share".to_string());
    remove_app_search_path(&mut paths, "/nowhere".to_string());
    assert_eq!(paths, strings(&["/opt"]));
}

#[test]
fn new_applications_are_those_that_were_not_stored() {
    assert_eq!(
        new_app_paths(&strings(&["/a", "/b", "/c"]), &strings(&["/b"])),
        strings(&["/a", "/c"])
    );
    assert!(new_app_paths(&strings(&["/a"]), &strings(&["/a", "/b"])).is_empty());
    assert_eq!(position(&strings(&["x", "y", "x"]), &"x".to_string()), Some(0));
    assert_eq!(position(&strings(&["x", "y"]), &"z".to_string()), None);
}
