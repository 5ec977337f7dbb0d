use coco_search::common::connector::Connector;
use coco_search::common::datasource::DataSource;
use coco_search::common::profile::UserProfile;
use coco_search::common::server::{
    AuthProvider, Health, Provider, Server, ServerAccessToken, Sso, Version,
};
use coco_search::common::table::KeyedTable;
use coco_search::server::auth::request_access_token_url;
use coco_search::server::connector::{get_connector_by_id, save_connectors_to_cache};
use coco_search::server::datasource::{
    attach_connectors, get_datasources_from_cache, save_datasource_to_cache,
};
use coco_search::server::http_client::{HttpClient, QueryValue};
use coco_search::server::servers::{
    adopt_servers, can_register, check_endpoint_exists, check_server_exists, clear_server_profile,
    get_all_servers, get_default_server, get_server_by_id, get_server_token,
    get_servers_as_hashmap, mark_server_as_offline, merge_refreshed, prepare_new_server,
    provider_info_url, remove_server_by_id, remove_server_token, save_access_token, save_server,
    set_server_enabled,
};

fn server(id: &str, endpoint: &str) -> Server {
    Server {
        id: id.to_string(),
        builtin: false,
        enabled: true,
        name: format!("server {}", id),
        endpoint: endpoint.to_string(),
        provider: Provider {
            name: "".to_string(),
            icon: "".to_string(),
            website: "".to_string(),
            eula: "".to_string(),
            privacy_policy: "".to_string(),
            banner: "".to_string(),
            description: "".to_string(),
        },
        version: Version { number: "1".to_string() },
        minimal_client_version: None,
        updated: "".to_string(),
        public: false,
        available: true,
        health: Some(Health { status: "green".to_string() }),
        profile: None,
        auth_provider: AuthProvider { sso: Sso { url: "".to_string() } },
        priority: 0,
    }
}

fn profile(name: &str) -> UserProfile {
    UserProfile {
        id: "u1".to_string(),
        name: name.to_string(),
        email: "u@example.com".to_string(),
        avatar: None,
        preferences: None,
    }
}

fn connector(id: &str, name: &str) -> Connector {
    Connector {
        id: id.to_string(),
        name: name.to_string(),
        description: None,
        icon: None,
        category: None,
        url: None,
    }
}

fn datasource(id: &str) -> DataSource {
    DataSource {
        id: id.to_string(),
        name: Some(format!("source {}", id)),
        kind: None,
        icon: None,
        connector_id: None,
        enabled: true,
        connector_info: None,
    }
}

#[test]
fn a_saved_server_is_found_by_its_id() {
    let mut cache = KeyedTable::new();
    assert!(!check_server_exists(&cache, "a"));
    assert!(save_server(&mut cache, &server("a", "https://a.example")));
    assert!(check_server_exists(&cache, "a"));
    assert_eq!(get_server_by_id(&cache, "a"), Some(server("a", "https://a.example")));
    assert_eq!(get_server_by_id(&cache, "b"), None);
}

#[test]
fn saving_a_known_id_replaces_the_server() {
    let mut cache = KeyedTable::new();
    assert!(save_server(&mut cache, &server("a", "https://old.example")));
    assert!(save_server(&mut cache, &server("b", "https://b.example")));
    assert!(!save_server(&mut cache, &server("a", "https://new.example")));
    assert_eq!(get_server_by_id(&cache, "a").unwrap().endpoint, "https://new.example");
    let all = get_all_servers(&cache);
    assert_eq!(all.len(), 2);
    assert_eq!(all[0].id, "a");
    assert_eq!(all[1].id, "b");
    let pairs = get_servers_as_hashmap(&cache);
    assert_eq!(pairs.len(), 2);
    assert_eq!(pairs[1].0, "b");
    assert_eq!(pairs[1].1, server("b", "https://b.example"));
}

#[test]
fn a_removed_server_is_gone() {
    let mut cache = KeyedTable::new();
    save_server(&mut cache, &server("a", "https://a.example"));
    assert!(remove_server_by_id(&mut cache, "a".to_string()));
    assert!(!remove_server_by_id(&mut cache, "a".to_string()));
    assert!(!check_server_exists(&cache, "a"));
    assert!(get_all_servers(&cache).is_empty());
}

#[test]
fn an_endpoint_is_known_when_a_server_has_it() {
    let mut cache = KeyedTable::new();
    save_server(&mut cache, &server("a", "https://a.example"));
    save_server(&mut cache, &server("b", "https://b.example"));
    assert!(check_endpoint_exists(&cache, "https://b.example"));
    assert!(!check_endpoint_exists(&cache, "https://b.example/"));
    assert!(!check_endpoint_exists(&cache, "https://c.example"));
}

#[test]
fn tokens_are_kept_per_server() {
    let mut tokens = KeyedTable::new();
    assert_eq!(get_server_token(&tokens, "a"), None);
    let token = ServerAccessToken::new("a".to_string(), "secret-1".to_string(), 3600);
    assert!(save_access_token(&mut tokens, "a".to_string(), token));
    let newer = ServerAccessToken::new("a".to_string(), "secret-2".to_string(), 3600);
    assert!(!save_access_token(&mut tokens, "a".to_string(), newer));
    assert_eq!(get_server_token(&tokens, "a").unwrap().access_token, "secret-2");
    assert_eq!(get_server_token(&tokens, "a").unwrap().expired_at, 3600);
    assert!(remove_server_token(&mut tokens, "a"));
    assert!(!remove_server_token(&mut tokens, "a"));
    assert_eq!(get_server_token(&tokens, "a"), None);
}

#[test]
fn the_default_server_is_the_cloud() {
    let server = get_default_server();
    assert_eq!(server.id, "default_coco_server");
    assert_eq!(server.name, "Coco Cloud");
    assert_eq!(server.endpoint, "https://coco.infini.cloud");
    assert!(server.builtin && server.enabled && server.available && !server.public);
    assert_eq!(server.provider.name, "INFINI Labs");
    assert_eq!(server.provider.icon, "https://coco.infini.cloud/icon.png");
    assert_eq!(server.provider.website, "http://infinilabs.com");
    assert_eq!(server.provider.eula, "http://infinilabs.com/eula.txt");
    assert_eq!(server.provider.privacy_policy, "http://infinilabs.com/privacy_policy.txt");
    assert_eq!(server.provider.banner, "https://coco.infini.cloud/banner.jpg");
    assert_eq!(
        server.provider.description,
        "Coco AI Server - Search, Connect, Collaborate, AI-powered enterprise search, all in one space."
    );
    assert_eq!(server.version.number, "1.0.0_SNAPSHOT");
    assert_eq!(server.updated, "2025-01-24T12:12:17.326286927+08:00");
    assert_eq!(server.auth_provider.sso.url, "https://coco.infini.cloud/sso/login/");
    assert_eq!(server.priority, 0);
    assert_eq!(server.minimal_client_version, None);
    assert_eq!(server.health, None);
    assert_eq!(server.profile, None);
}

#[test]
fn a_server_that_cannot_be_reached_is_marked() {
    let mut cache = KeyedTable::new();
    save_server(&mut cache, &server("a", "https://a.example"));
    mark_server_as_offline(&mut cache, "a");
    let marked = get_server_by_id(&cache, "a").unwrap();
    assert!(!marked.available);
    assert_eq!(marked.health, None);
    assert_eq!(marked.endpoint, "https://a.example");
    mark_server_as_offline(&mut cache, "unknown");
    assert_eq!(get_all_servers(&cache).len(), 1);
}

#[test]
fn the_provider_info_url_hangs_on_the_endpoint() {
    assert_eq!(
        provider_info_url("https://example.com"),
        "https://example.com/provider/_info"
    );
    assert_eq!(provider_info_url(""), "/provider/_info");
}

#[test]
fn the_token_url_carries_the_request_id() {
    assert_eq!(
        request_access_token_url("abc-123"),
        "/auth/request_access_token?request_id=abc-123"
    );
}

#[test]
fn a_server_may_register_when_it_is_enabled_and_reachable_for_this_user() {
    let mut tokens = KeyedTable::new();
    let mut private = server("a", "https://a.example");
    assert!(!can_register(&private, &tokens));
    save_access_token(
        &mut tokens,
        "a".to_string(),
        ServerAccessToken::new("a".to_string(), "t".to_string(), 1),
    );
    assert!(can_register(&private, &tokens));
    private.enabled = false;
    assert!(!can_register(&private, &tokens));
    let mut open = server("b", "https://b.example");
    open.public = true;
    assert!(can_register(&open, &tokens));
    open.enabled = false;
    assert!(!can_register(&open, &tokens));
}

#[test]
fn fresh_news_keeps_what_this_client_decided() {
    let mut known = server("local-id", "https://a.example");
    known.builtin = true;
    known.enabled = false;
    known.available = false;
    known.profile = Some(profile("Ann"));
    let mut news = server("remote-id", "https://a.example//");
    news.name = "Renamed".to_string();
    news.profile = None;
    news.priority = 7;
    let merged = merge_refreshed(&known, news);
    assert_eq!(merged.id, "local-id");
    assert!(merged.builtin);
    assert!(!merged.enabled);
    assert!(merged.available);
    assert_eq!(merged.profile, Some(profile("Ann")));
    assert_eq!(merged.name, "Renamed");
    assert_eq!(merged.priority, 7);
    assert_eq!(merged.endpoint, "https://a.example");
}

#[test]
fn a_new_server_gets_an_id_and_a_name_where_it_has_none() {
    let mut found = server("", "https://a.example/");
    found.name = "".to_string();
    let ready = prepare_new_server(found, "generated".to_string());
    assert_eq!(ready.id, "generated");
    assert_eq!(ready.name, "Coco Server");
    assert_eq!(ready.endpoint, "https://a.example");
    let named = prepare_new_server(server("own", "https://b.example"), "generated".to_string());
    assert_eq!(named.id, "own");
    assert_eq!(named.name, "server own");
}

#[test]
fn servers_from_the_store_are_adopted_unless_there_are_none() {
    let mut cache = KeyedTable::new();
    assert_eq!(
        adopt_servers(&mut cache, &Vec::new()),
        Err("Failed to deserialize any servers from the store.".to_string())
    );
    assert!(get_all_servers(&cache).is_empty());
    let stored = vec![
        server("a", "https://a.example"),
        server("b", "https://b.example"),
        server("a", "https://a2.example"),
    ];
    assert_eq!(adopt_servers(&mut cache, &stored), Ok(()));
    assert_eq!(get_all_servers(&cache).len(), 2);
    assert_eq!(get_server_by_id(&cache, "a").unwrap().endpoint, "https://a2.example");
}

#[test]
fn a_server_is_switched_on_and_off() {
    let mut cache = KeyedTable::new();
    save_server(&mut cache, &server("a", "https://a.example"));
    let off = set_server_enabled(&mut cache, "a", false).unwrap();
    assert!(!off.enabled);
    assert!(!get_server_by_id(&cache, "a").unwrap().enabled);
    let on = set_server_enabled(&mut cache, "a", true).unwrap();
    assert!(on.enabled);
    assert_eq!(set_server_enabled(&mut cache, "zzz", true), None);
}

#[test]
fn signing_off_clears_the_profile() {
    let mut cache = KeyedTable::new();
    let mut signed_on = server("a", "https://a.example");
    signed_on.profile = Some(profile("Ann"));
    save_server(&mut cache, &signed_on);
    assert_eq!(clear_server_profile(&mut cache, "a"), Ok(()));
    assert_eq!(get_server_by_id(&cache, "a").unwrap().profile, None);
    assert_eq!(
        clear_server_profile(&mut cache, "b"),
        Err("No server found for id: b".to_string())
    );
}

#[test]
fn an_address_is_joined_with_one_slash() {
    assert_eq!(HttpClient::join_url("https://a.example", "path"), "https://a.example/path");
    assert_eq!(HttpClient::join_url("https://a.example///", "///path/"), "https://a.example/path/");
    assert_eq!(HttpClient::join_url("https://a.example/", "/a/b"), "https://a.example/a/b");
    assert_eq!(HttpClient::join_url("", ""), "/");
    assert_eq!(HttpClient::join_url("//", "//"), "/");
    assert_eq!(HttpClient::join_url("a/b", "c//d"), "a/b/c//d");
}

#[test]
fn query_values_are_sent_as_text() {
    assert_eq!(
        HttpClient::query_text(&QueryValue::Text("a b".to_string())),
        Some("a b".to_string())
    );
    assert_eq!(
        HttpClient::query_text(&QueryValue::Number("12.5".to_string())),
        Some("12.5".to_string())
    );
    assert_eq!(HttpClient::query_text(&QueryValue::Flag(true)), Some("true".to_string()));
    assert_eq!(HttpClient::query_text(&QueryValue::Flag(false)), Some("false".to_string()));
    assert_eq!(HttpClient::query_text(&QueryValue::Other), None);
}

#[test]
fn a_request_goes_to_the_server_with_its_token() {
    let mut cache = KeyedTable::new();
    let mut tokens = KeyedTable::new();
    save_server(&mut cache, &server("a", "https://a.example/"));
    save_server(&mut cache, &server("b", "https://b.example"));
    save_access_token(
        &mut tokens,
        "a".to_string(),
        ServerAccessToken::new("a".to_string(), "secret".to_string(), 1),
    );

    let plan = HttpClient::plan_request(&cache, &tokens, "a", "/query/_search", None)
        .ok()
        .unwrap();
    assert_eq!(plan.url, "https://a.example/query/_search");
    assert_eq!(plan.headers.len(), 1);
    assert_eq!(plan.headers.get("X-API-TOKEN").unwrap(), "secret");

    let mut custom = KeyedTable::new();
    custom.insert("Accept".to_string(), "text/plain".to_string());
    custom.insert("X-API-TOKEN".to_string(), "stale".to_string());
    let plan = HttpClient::plan_request(&cache, &tokens, "a", "x", Some(custom))
        .ok()
        .unwrap();
    assert_eq!(plan.headers.len(), 2);
    assert_eq!(plan.headers.get("Accept").unwrap(), "text/plain");
    assert_eq!(plan.headers.get("X-API-TOKEN").unwrap(), "secret");

    let plan = HttpClient::plan_request(&cache, &tokens, "b", "x", None).ok().unwrap();
    assert_eq!(plan.url, "https://b.example/x");
    assert_eq!(plan.headers.len(), 0);

    let missing = HttpClient::plan_request(&cache, &tokens, "c", "x", None);
    assert_eq!(missing.err(), Some("Server not found".to_string()));
}

#[test]
fn connectors_are_kept_per_server() {
    let mut cache = KeyedTable::new();
    assert_eq!(get_connector_by_id(&cache, "s1", "c1"), None);
    save_connectors_to_cache(
        &mut cache,
        "s1",
        vec![connector("c1", "one"), connector("c2", "two"), connector("c1", "one again")],
    );
    save_connectors_to_cache(&mut cache, "s2", vec![connector("c9", "nine")]);
    assert_eq!(get_connector_by_id(&cache, "s1", "c1"), Some(connector("c1", "one again")));
    assert_eq!(get_connector_by_id(&cache, "s1", "c2"), Some(connector("c2", "two")));
    assert_eq!(get_connector_by_id(&cache, "s1", "c9"), None);
    assert_eq!(get_connector_by_id(&cache, "s2", "c9"), Some(connector("c9", "nine")));
    assert_eq!(get_connector_by_id(&cache, "s3", "c1"), None);
    // saving again replaces everything that was kept for the server
    save_connectors_to_cache(&mut cache, "s1", vec![connector("c3", "three")]);
    assert_eq!(get_connector_by_id(&cache, "s1", "c1"), None);
    assert_eq!(get_connector_by_id(&cache, "s1", "c3"), Some(connector("c3", "three")));
    assert_eq!(get_connector_by_id(&cache, "s2", "c9"), Some(connector("c9", "nine")));
}

#[test]
fn datasources_are_kept_per_server() {
    let mut cache = KeyedTable::new();
    assert_eq!(get_datasources_from_cache(&cache, "s1"), None);
    save_datasource_to_cache(&mut cache, "s1", vec![datasource("d1"), datasource("d2")]);
    save_datasource_to_cache(&mut cache, "s2", Vec::new());
    assert_eq!(
        get_datasources_from_cache(&cache, "s1"),
        Some(vec![datasource("d1"), datasource("d2")])
    );
    assert_eq!(get_datasources_from_cache(&cache, "s2"), Some(Vec::new()));
    assert_eq!(get_datasources_from_cache(&cache, "s3"), None);
}

#[test]
fn datasources_get_the_connector_kept_under_their_id() {
    let mut connectors = KeyedTable::new();
    save_connectors_to_cache(&mut connectors, "s1", vec![connector("d1", "for d1")]);
    let kept = attach_connectors(&vec![datasource("d1"), datasource("d2")], &connectors, "s1");
    assert_eq!(kept.len(), 1);
    assert_eq!(kept[0].id, "d1");
    assert_eq!(kept[0].connector_info, Some(connector("d1", "for d1")));
    assert_eq!(kept[0].name, Some("source d1".to_string()));
    assert!(attach_connectors(&vec![datasource("d1")], &connectors, "s2").is_empty());
}
