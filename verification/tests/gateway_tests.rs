use litekv::api::ApiError;
use litekv::config::AppConfig;
use litekv::repo::Repo;
use litekv::entry::QueryResult;
use litekv::routes::{
    commit_multiple_data, get_data, query_data, reply_of, status, QueryInput, ValueInput,
};
use litekv::time::Timestamp;
use serde_json::Value as Json;

fn input(scope: &str, key: &str, value: Json) -> ValueInput {
    ValueInput { scope: scope.to_string(), key: key.to_string(), value, expires_on: None }
}

fn writable() -> AppConfig {
    AppConfig::load("127.0.0.1".to_string(), 8088, None, false).unwrap()
}

fn readonly() -> AppConfig {
    AppConfig::load("127.0.0.1".to_string(), 8088, Some("data.db".to_string()), true).unwrap()
}

fn lookup(scope: &str, key: &str, limit: Option<u64>) -> QueryInput {
    QueryInput { scope: scope.to_string(), key: key.to_string(), start_on: None, end_on: None, limit }
}

#[test]
fn status_is_no_content() {
    assert_eq!(status(), 204);
}

#[test]
fn commit_then_get_returns_the_value() {
    let mut repo = Repo::create_in_memory().unwrap();
    let mut document = serde_json::Map::new();
    document.insert("name".to_string(), Json::from("Ann"));
    commit_multiple_data(&writable(), &mut repo, vec![input("users", "42", Json::Object(document.clone()))])
        .unwrap();
    let response = get_data("users".to_string(), "42".to_string(), &repo).unwrap();
    assert_eq!(response.value, Json::Object(document));
    assert_eq!(response.expires_on, None);
}

#[test]
fn get_returns_the_most_recent_value() {
    let mut repo = Repo::create_in_memory().unwrap();
    commit_multiple_data(&writable(), &mut repo, vec![input("a", "b", Json::from(1))]).unwrap();
    commit_multiple_data(&writable(), &mut repo, vec![input("a", "b", Json::from(2))]).unwrap();
    let response = get_data("a".to_string(), "b".to_string(), &repo).unwrap();
    assert_eq!(response.value, Json::from(2));
}

#[test]
fn get_of_the_last_entry_of_a_batch() {
    let mut repo = Repo::create_in_memory().unwrap();
    commit_multiple_data(
        &writable(),
        &mut repo,
        vec![input("a", "b", Json::from(1)), input("a", "b", Json::from(2)), input("a", "b", Json::from(3))],
    )
    .unwrap();
    let response = get_data("a".to_string(), "b".to_string(), &repo).unwrap();
    assert_eq!(response.value, Json::from(3));
}

#[test]
fn get_reports_a_missing_key_by_name() {
    let mut repo = Repo::create_in_memory().unwrap();
    commit_multiple_data(&writable(), &mut repo, vec![input("a", "b", Json::from(1))]).unwrap();
    let res = get_data("a".to_string(), "nothing here".to_string(), &repo);
    match res {
        Err(ApiError::ValueNotFound(name)) => assert_eq!(name, "nothing here"),
        _ => panic!("the key should not have been found"),
    }
}

#[test]
fn get_does_not_find_an_expired_value() {
    let mut repo = Repo::create_in_memory().unwrap();
    let mut expired = input("a", "b", Json::from(1));
    expired.expires_on = Some(Timestamp::new(946_684_800, 0).unwrap());
    commit_multiple_data(&writable(), &mut repo, vec![expired]).unwrap();
    assert!(matches!(
        get_data("a".to_string(), "b".to_string(), &repo),
        Err(ApiError::ValueNotFound(_))
    ));
}

#[test]
fn commit_is_turned_down_by_readonly_settings() {
    let mut repo = Repo::create_in_memory().unwrap();
    commit_multiple_data(&writable(), &mut repo, vec![input("a", "b", Json::from(1))]).unwrap();
    let res = commit_multiple_data(&readonly(), &mut repo, vec![input("a", "b", Json::from(2))]);
    assert!(matches!(res, Err(ApiError::ReadonlyDataStore)));
    let res = commit_multiple_data(&readonly(), &mut repo, vec![]);
    assert!(matches!(res, Err(ApiError::ReadonlyDataStore)));
    let out = query_data(&repo, &lookup("a", "b", None)).unwrap();
    assert_eq!(out.len(), 1);
    assert_eq!(out[0].value, Json::from(1));
}

#[test]
fn commit_is_turned_down_by_a_readonly_store() {
    let now = chrono::Utc::now();
    let path = format!("/tmp/litekv_gateway_{}_{}.db", now.timestamp(), now.timestamp_subsec_nanos());
    {
        Repo::create_with_file(&path, false).unwrap();
    }
    let mut repo = Repo::create_with_file(&path, true).unwrap();
    let res = commit_multiple_data(&writable(), &mut repo, vec![input("a", "b", Json::from(2))]);
    assert!(matches!(res, Err(ApiError::ReadonlyDataStore)));
    assert!(query_data(&repo, &lookup("a", "b", None)).unwrap().is_empty());
}

#[test]
fn commit_reports_a_failure_of_the_store_and_keeps_nothing() {
    let mut repo = Repo::create_in_memory().unwrap();
    let res = commit_multiple_data(
        &writable(),
        &mut repo,
        vec![input("a", "b", Json::from(1)), input("a", "b", Json::Null)],
    );
    match res {
        Err(error) => {
            assert!(matches!(error, ApiError::UnknownError(_)));
            assert_eq!(error.status_code(), 500);
        },
        Ok(()) => panic!("a null cannot be stored"),
    }
    assert!(query_data(&repo, &lookup("a", "b", None)).unwrap().is_empty());
}

#[test]
fn query_returns_value_and_both_times_newest_first() {
    let mut repo = Repo::create_in_memory().unwrap();
    let expiry = Timestamp::new(32_503_680_000, 0).unwrap();
    let mut first = input("a", "b", Json::from("one"));
    first.expires_on = Some(expiry);
    commit_multiple_data(&writable(), &mut repo, vec![first, input("a", "b", Json::from("two"))]).unwrap();
    let out = query_data(&repo, &lookup("a", "b", None)).unwrap();
    assert_eq!(out.len(), 2);
    assert_eq!(out[0].value, Json::from("two"));
    assert_eq!(out[0].expires_on, None);
    assert_eq!(out[1].value, Json::from("one"));
    assert_eq!(out[1].expires_on, Some(expiry));
    assert!(!out[0].created_on.is_before(&out[1].created_on));
    let out = query_data(&repo, &lookup("a", "b", Some(1))).unwrap();
    assert_eq!(out.len(), 1);
    assert_eq!(out[0].value, Json::from("two"));
}

#[test]
fn query_applies_the_window() {
    let mut repo = Repo::create_in_memory().unwrap();
    commit_multiple_data(&writable(), &mut repo, vec![input("a", "b", Json::from(1))]).unwrap();
    let written = query_data(&repo, &lookup("a", "b", None)).unwrap()[0].created_on;
    let mut inside = lookup("a", "b", None);
    inside.start_on = Some(written);
    inside.end_on = Some(written);
    assert_eq!(query_data(&repo, &inside).unwrap().len(), 1);
    let mut outside = lookup("a", "b", None);
    outside.end_on = Some(Timestamp::new(written.secs() - 1, 0).unwrap());
    assert!(query_data(&repo, &outside).unwrap().is_empty());
}

#[test]
fn query_without_match_is_an_empty_answer() {
    let repo = Repo::create_in_memory().unwrap();
    assert!(query_data(&repo, &lookup("a", "b", None)).unwrap().is_empty());
}

#[test]
fn query_and_get_report_a_failure_of_the_store() {
    let now = chrono::Utc::now();
    let path = format!("/tmp/litekv_broken_{}_{}.db", now.timestamp(), now.timestamp_subsec_nanos());
    {
        let connection = rusqlite::Connection::open(&path).unwrap();
        connection
            .execute_batch(
                "CREATE TABLE store (id INTEGER PRIMARY KEY, scope TEXT NOT NULL, key TEXT NOT NULL, \
                 value BLOB NOT NULL, created_on TEXT NOT NULL, expires_on TEXT);
                 INSERT INTO store (scope, key, value, created_on, expires_on) VALUES
                 ('a', 'b', 'not json', '2021-03-04 05:06:07+00:00', NULL);",
            )
            .unwrap();
    }
    let repo = Repo::create_with_file(&path, false).unwrap();
    assert!(matches!(query_data(&repo, &lookup("a", "b", None)), Err(ApiError::UnknownError(_))));
    assert!(matches!(
        get_data("a".to_string(), "b".to_string(), &repo),
        Err(ApiError::UnknownError(_))
    ));
}

#[test]
fn reply_to_an_empty_answer_names_the_key() {
    match reply_of("k".to_string(), vec![]) {
        Err(ApiError::ValueNotFound(name)) => assert_eq!(name, "k"),
        _ => panic!("an empty answer holds no value"),
    }
}

#[test]
fn reply_is_the_first_entry_of_the_answer() {
    let first = QueryResult {
        value: Json::from("newest"),
        created_on: Timestamp::new(200, 0).unwrap(),
        expires_on: Some(Timestamp::new(900, 0).unwrap()),
    };
    let second = QueryResult {
        value: Json::from("older"),
        created_on: Timestamp::new(100, 0).unwrap(),
        expires_on: None,
    };
    let response = reply_of("k".to_string(), vec![first, second]).unwrap();
    assert_eq!(response.value, Json::from("newest"));
    assert_eq!(response.created_on, Timestamp::new(200, 0).unwrap());
    assert_eq!(response.expires_on, Some(Timestamp::new(900, 0).unwrap()));
}
