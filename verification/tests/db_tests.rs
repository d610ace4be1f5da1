use webhook_tester::db::{place_by_recency, text_at_most, Database, StorageError};
use webhook_tester::models::{StoredRequest, WebhookConfig};
use webhook_tester::AppState;

fn request(id: &str, webhook_id: &str, body: &str) -> StoredRequest {
    StoredRequest {
        id: id.into(),
        webhook_id: webhook_id.into(),
        method: "POST".into(),
        headers: "{}".into(),
        body: body.into(),
        query: "{}".into(),
        created_at: "now".into(),
    }
}

fn config(webhook_id: &str, status: u16, body: &str) -> WebhookConfig {
    WebhookConfig {
        webhook_id: webhook_id.into(),
        status_code: Some(status),
        response_body: Some(body.into()),
        content_type: Some("text/plain".into()),
        forward_url: None,
    }
}

#[test]
fn create_and_fetch_request() {
    let mut db = Database::new();

    let req = StoredRequest {
        id: "1".into(),
        webhook_id: "wh".into(),
        method: "POST".into(),
        headers: "{}".into(),
        body: "body".into(),
        query: "{}".into(),
        created_at: "now".into(),
    };

    db.store_request(&req).unwrap();
    let fetched = db.get_request("1").unwrap();

    assert_eq!(fetched.body, "body");
}

#[test]
fn fetched_request_equals_stored_request() {
    let mut db = Database::new();
    let req = StoredRequest {
        id: "id-7".into(),
        webhook_id: "wh".into(),
        method: "PUT".into(),
        headers: "{\"a\":\"b\"}".into(),
        body: "payload \u{1f600}".into(),
        query: "{\"q\":\"1\"}".into(),
        created_at: "2025-01-01T00:00:00Z".into(),
    };
    db.store_request(&req).unwrap();
    let fetched = db.get_request("id-7").unwrap();
    assert_eq!(fetched.id, req.id);
    assert_eq!(fetched.webhook_id, req.webhook_id);
    assert_eq!(fetched.method, req.method);
    assert_eq!(fetched.headers, req.headers);
    assert_eq!(fetched.body, req.body);
    assert_eq!(fetched.query, req.query);
    assert_eq!(fetched.created_at, req.created_at);
}

#[test]
fn missing_request_is_not_found() {
    let mut db = Database::new();
    assert_eq!(db.get_request("nope").unwrap_err(), StorageError::NotFound);
    db.store_request(&request("1", "wh", "b")).unwrap();
    assert_eq!(db.get_request("2").unwrap_err(), StorageError::NotFound);
    assert_eq!(db.get_request("").unwrap_err(), StorageError::NotFound);
}

#[test]
fn duplicate_request_is_refused_and_changes_nothing() {
    let mut db = Database::new();
    db.store_request(&request("1", "wh", "first")).unwrap();
    assert_eq!(db.store_request(&request("1", "other", "second")).unwrap_err(), StorageError::Duplicate);
    assert_eq!(db.get_request("1").unwrap().body, "first");
    assert_eq!(db.get_requests("wh").len(), 1);
    assert_eq!(db.get_requests("other").len(), 0);
}

#[test]
fn request_may_name_an_unknown_webhook() {
    let mut db = Database::new();
    assert!(!db.has_webhook("ghost"));
    db.store_request(&request("1", "ghost", "b")).unwrap();
    assert_eq!(db.get_request("1").unwrap().webhook_id, "ghost");
}

#[test]
fn requests_are_listed_most_recent_first() {
    let mut db = Database::new();
    db.store_request(&request("1", "a", "one")).unwrap();
    db.store_request(&request("2", "b", "two")).unwrap();
    db.store_request(&request("3", "a", "three")).unwrap();
    db.store_request(&request("4", "a", "four")).unwrap();

    let listed: Vec<String> = db.get_requests("a").iter().map(|r| r.id.clone()).collect();
    assert_eq!(listed, vec!["4", "3", "1"]);
    let listed: Vec<String> = db.get_requests("b").iter().map(|r| r.id.clone()).collect();
    assert_eq!(listed, vec!["2"]);
    assert!(db.get_requests("c").is_empty());
}

#[test]
fn webhook_is_created_once() {
    let mut db = Database::new();
    assert!(!db.has_webhook("w"));
    db.create_webhook("w").unwrap();
    assert!(db.has_webhook("w"));
    assert_eq!(db.create_webhook("w").unwrap_err(), StorageError::Duplicate);
    db.create_webhook("v").unwrap();
    assert!(db.has_webhook("v"));
}

#[test]
fn insert_webhook_refuses_a_second_row() {
    let mut db = Database::new();
    db.insert_webhook("w", "2025-01-01T00:00:00Z".to_string()).unwrap();
    assert_eq!(
        db.insert_webhook("w", "2026-01-01T00:00:00Z".to_string()).unwrap_err(),
        StorageError::Duplicate
    );
}

#[test]
fn absent_config_is_the_default() {
    let db = Database::new();
    let found = db.get_response_config("anything").unwrap();
    assert_eq!(found.webhook_id, "");
    assert_eq!(found.status_code, Some(200));
    assert_eq!(found.response_body.as_deref(), Some("OK"));
    assert_eq!(found.content_type.as_deref(), Some("text/plain"));
    assert_eq!(found.forward_url, None);
}

#[test]
fn default_config_values() {
    let made = WebhookConfig::new_default();
    let derived = WebhookConfig::default();
    for config in [made, derived] {
        assert_eq!(config.webhook_id, "");
        assert_eq!(config.status_code, Some(200));
        assert_eq!(config.response_body.as_deref(), Some("OK"));
        assert_eq!(config.content_type.as_deref(), Some("text/plain"));
        assert_eq!(config.forward_url, None);
    }
}

#[test]
fn upsert_twice_leaves_one_row_with_latest_values() {
    let mut db = Database::new();
    db.set_response_config(&config("abc", 201, "Created")).unwrap();
    db.set_response_config(&config("abc", 201, "Created")).unwrap();
    let found = db.get_response_config("abc").unwrap();
    assert_eq!(found.webhook_id, "abc");
    assert_eq!(found.status_code, Some(201));
    assert_eq!(found.response_body.as_deref(), Some("Created"));

    db.set_response_config(&config("abc", 404, "Gone")).unwrap();
    let found = db.get_response_config("abc").unwrap();
    assert_eq!(found.status_code, Some(404));
    assert_eq!(found.response_body.as_deref(), Some("Gone"));
}

#[test]
fn upsert_replaces_every_field() {
    let mut db = Database::new();
    db.set_response_config(&WebhookConfig {
        webhook_id: "w".into(),
        status_code: Some(202),
        response_body: Some("first".into()),
        content_type: Some("text/html".into()),
        forward_url: Some("http://old".into()),
    })
    .unwrap();
    db.set_response_config(&WebhookConfig {
        webhook_id: "w".into(),
        status_code: None,
        response_body: None,
        content_type: None,
        forward_url: None,
    })
    .unwrap();
    let found = db.get_response_config("w").unwrap();
    assert_eq!(found.webhook_id, "w");
    assert_eq!(found.status_code, None);
    assert_eq!(found.response_body, None);
    assert_eq!(found.content_type, None);
    assert_eq!(found.forward_url, None);
}

#[test]
fn configs_of_other_webhooks_are_untouched() {
    let mut db = Database::new();
    db.set_response_config(&config("a", 201, "A")).unwrap();
    db.set_response_config(&config("b", 202, "B")).unwrap();
    db.set_response_config(&config("a", 203, "A2")).unwrap();
    assert_eq!(db.get_response_config("a").unwrap().status_code, Some(203));
    assert_eq!(db.get_response_config("b").unwrap().status_code, Some(202));
    assert_eq!(db.get_response_config("b").unwrap().response_body.as_deref(), Some("B"));
}

#[test]
fn app_state_delegates_to_its_database() {
    let mut state = AppState::new();
    state.create_webhook("w").unwrap();
    assert_eq!(state.create_webhook("w").unwrap_err(), StorageError::Duplicate);
    state.store_request(&request("1", "w", "one")).unwrap();
    state.store_request(&request("2", "w", "two")).unwrap();
    assert_eq!(state.store_request(&request("2", "w", "again")).unwrap_err(), StorageError::Duplicate);
    let listed: Vec<String> = state.get_requests("w").iter().map(|r| r.body.clone()).collect();
    assert_eq!(listed, vec!["two", "one"]);
    assert_eq!(state.get_response_config("w").unwrap().status_code, Some(200));
    state.set_response_config(&config("w", 418, "teapot")).unwrap();
    assert_eq!(state.get_response_config("w").unwrap().status_code, Some(418));
    assert_eq!(state.registry.channel_count(), 0);
}

fn dated(id: &str, webhook_id: &str, created_at: &str) -> StoredRequest {
    StoredRequest {
        id: id.into(),
        webhook_id: webhook_id.into(),
        method: "POST".into(),
        headers: "{}".into(),
        body: "".into(),
        query: "{}".into(),
        created_at: created_at.into(),
    }
}

fn listed_ids(state: &AppState, webhook_id: &str) -> Vec<String> {
    state.get_requests(webhook_id).iter().map(|r| r.id.clone()).collect()
}

#[test]
fn requests_are_listed_by_created_at_descending() {
    let mut state = AppState::new();
    state.store_request(&dated("a", "w", "2025-01-01T00:00:00Z")).unwrap();
    state.store_request(&dated("b", "w", "2025-01-02T00:00:00Z")).unwrap();
    state.store_request(&dated("c", "x", "2025-01-03T00:00:00Z")).unwrap();

    assert_eq!(listed_ids(&state, "w"), vec!["b", "a"]);
    assert_eq!(listed_ids(&state, "x"), vec!["c"]);
    assert!(state.get_requests("none").is_empty());
}

#[test]
fn listing_does_not_depend_on_the_order_of_storing() {
    let mut state = AppState::new();
    state.store_request(&dated("b", "w", "2025-01-02T00:00:00Z")).unwrap();
    state.store_request(&dated("c", "x", "2025-01-03T00:00:00Z")).unwrap();
    state.store_request(&dated("a", "w", "2025-01-01T00:00:00Z")).unwrap();

    assert_eq!(listed_ids(&state, "w"), vec!["b", "a"]);

    let mut db = Database::new();
    for (id, at) in [("3", "2025-03-01"), ("1", "2025-01-01"), ("5", "2025-05-01"), ("2", "2025-02-01"), ("4", "2025-04-01")] {
        db.store_request(&dated(id, "w", at)).unwrap();
    }
    let ids: Vec<String> = db.get_requests("w").iter().map(|r| r.id.clone()).collect();
    assert_eq!(ids, vec!["5", "4", "3", "2", "1"]);
}

#[test]
fn requests_of_one_instant_are_listed_later_stored_first() {
    let mut db = Database::new();
    db.store_request(&dated("old", "w", "2025-01-01T00:00:00Z")).unwrap();
    db.store_request(&dated("tie-1", "w", "2025-01-02T00:00:00Z")).unwrap();
    db.store_request(&dated("tie-2", "w", "2025-01-02T00:00:00Z")).unwrap();
    db.store_request(&dated("new", "w", "2025-01-03T00:00:00Z")).unwrap();
    db.store_request(&dated("tie-3", "w", "2025-01-02T00:00:00Z")).unwrap();
    let ids: Vec<String> = db.get_requests("w").iter().map(|r| r.id.clone()).collect();
    assert_eq!(ids, vec!["new", "tie-3", "tie-2", "tie-1", "old"]);
}

#[test]
fn texts_compare_byte_by_byte() {
    assert!(text_at_most("", ""));
    assert!(text_at_most("", "a"));
    assert!(!text_at_most("a", ""));
    assert!(text_at_most("a", "a"));
    assert!(text_at_most("a", "b"));
    assert!(!text_at_most("b", "a"));
    assert!(text_at_most("ab", "abc"));
    assert!(!text_at_most("abc", "ab"));
    assert!(text_at_most("2025-01-01T00:00:00Z", "2025-01-02T00:00:00Z"));
    assert!(!text_at_most("2025-01-02T00:00:00Z", "2025-01-01T23:59:59Z"));
    assert!(text_at_most("Z", "a"));
    assert!(text_at_most("z", "\u{e9}"));
    assert!(!text_at_most("\u{e9}", "z"));
}

#[test]
fn place_by_recency_finds_the_first_entry_not_newer() {
    let listed = vec![dated("c", "w", "3"), dated("b", "w", "2"), dated("a", "w", "1")];
    assert_eq!(place_by_recency(&listed, &dated("x", "w", "4")), 0);
    assert_eq!(place_by_recency(&listed, &dated("x", "w", "3")), 0);
    assert_eq!(place_by_recency(&listed, &dated("x", "w", "2")), 1);
    assert_eq!(place_by_recency(&listed, &dated("x", "w", "1")), 2);
    assert_eq!(place_by_recency(&listed, &dated("x", "w", "0")), 3);
    assert_eq!(place_by_recency(&Vec::new(), &dated("x", "w", "0")), 0);
}
