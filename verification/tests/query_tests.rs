use litekv::entry::{QueryResult, Value};
use litekv::query::select;
use litekv::time::Timestamp;
use serde_json::Value as Json;

fn at(secs: i64) -> Timestamp {
    Timestamp::new(secs, 0).unwrap()
}

fn row(scope: &str, key: &str, value: i64, created: i64, expires: Option<i64>) -> Value {
    Value {
        scope: scope.to_string(),
        key: key.to_string(),
        value: Json::from(value),
        created_on: at(created),
        expires_on: expires.map(at),
    }
}

fn numbers(out: &Vec<QueryResult>) -> Vec<i64> {
    out.iter().map(|r| r.value.as_i64().unwrap()).collect()
}

#[test]
fn select_returns_newest_first() {
    let rows = vec![row("a", "b", 1, 100, None), row("a", "b", 2, 200, None), row("a", "b", 3, 300, None)];
    let out = select(rows, "a", "b", at(1000), None, None, None);
    assert_eq!(numbers(&out), vec![3, 2, 1]);
    assert_eq!(out[0].created_on, at(300));
    assert_eq!(out[2].created_on, at(100));
    assert_eq!(out[0].expires_on, None);
}

#[test]
fn select_with_limit_two_returns_the_two_newest_of_three() {
    let rows = vec![row("a", "b", 1, 100, None), row("a", "b", 2, 200, None), row("a", "b", 3, 300, None)];
    let out = select(rows, "a", "b", at(1000), None, None, Some(2));
    assert_eq!(numbers(&out), vec![3, 2]);
}

#[test]
fn select_orders_by_time_of_writing_not_by_position() {
    let rows = vec![row("a", "b", 2, 200, None), row("a", "b", 3, 300, None), row("a", "b", 1, 100, None)];
    let out = select(rows, "a", "b", at(1000), None, None, Some(2));
    assert_eq!(numbers(&out), vec![3, 2]);
}

#[test]
fn select_puts_the_later_written_first_among_equal_times() {
    let rows = vec![
        row("a", "b", 1, 100, None),
        row("a", "b", 2, 100, None),
        row("a", "b", 3, 50, None),
        row("a", "b", 4, 100, None),
    ];
    let out = select(rows, "a", "b", at(1000), None, None, None);
    assert_eq!(numbers(&out), vec![4, 2, 1, 3]);
}

#[test]
fn select_orders_by_nanoseconds_within_a_second() {
    let mut early = row("a", "b", 1, 100, None);
    early.created_on = Timestamp::new(100, 1).unwrap();
    let mut late = row("a", "b", 2, 100, None);
    late.created_on = Timestamp::new(100, 2).unwrap();
    let out = select(vec![late, early], "a", "b", at(1000), None, None, None);
    assert_eq!(numbers(&out), vec![2, 1]);
}

#[test]
fn select_window_includes_both_bounds() {
    let rows = vec![
        row("a", "b", 1, 99, None),
        row("a", "b", 2, 100, None),
        row("a", "b", 3, 150, None),
        row("a", "b", 4, 200, None),
        row("a", "b", 5, 201, None),
    ];
    let out = select(rows, "a", "b", at(1000), Some(at(100)), Some(at(200)), None);
    assert_eq!(numbers(&out), vec![4, 3, 2]);
}

#[test]
fn select_window_of_one_instant() {
    let rows = vec![row("a", "b", 1, 99, None), row("a", "b", 2, 100, None), row("a", "b", 3, 101, None)];
    let out = select(rows, "a", "b", at(1000), Some(at(100)), Some(at(100)), None);
    assert_eq!(numbers(&out), vec![2]);
}

#[test]
fn select_with_only_a_lower_bound() {
    let rows = vec![row("a", "b", 1, 99, None), row("a", "b", 2, 100, None), row("a", "b", 3, 101, None)];
    let out = select(rows, "a", "b", at(1000), Some(at(100)), None, None);
    assert_eq!(numbers(&out), vec![3, 2]);
}

#[test]
fn select_with_only_an_upper_bound() {
    let rows = vec![row("a", "b", 1, 99, None), row("a", "b", 2, 100, None), row("a", "b", 3, 101, None)];
    let out = select(rows, "a", "b", at(1000), None, Some(at(100)), None);
    assert_eq!(numbers(&out), vec![2, 1]);
}

#[test]
fn select_with_an_empty_window_returns_nothing() {
    let rows = vec![row("a", "b", 1, 100, None)];
    let out = select(rows, "a", "b", at(1000), Some(at(200)), Some(at(100)), None);
    assert!(out.is_empty());
}

// FLAGGED: documented behaviour, possibly unintended.
//
// The store never deletes an entry whose expiration has passed: expiration
// only decides, at the time of the query, whether the entry is shown. An
// entry is hidden once its marker lies in the past; one without a marker, or
// with a marker at or after the time of the query, is shown.
//
// Whether this is what the marker was meant for has not been confirmed
// against requirements: it may have been meant to select the expired entries
// instead of hiding them. The three tests below pin the predicate as it is
// documented, so that whoever changes it does so on purpose.
#[test]
fn expiration_predicate_is_pinned_as_documented() {
    let shown_without_marker = vec![row("a", "b", 1, 100, None)];
    assert_eq!(select(shown_without_marker, "a", "b", at(1000), None, None, None).len(), 1);
    let shown_before_expiry = vec![row("a", "b", 1, 100, Some(1001))];
    assert_eq!(select(shown_before_expiry, "a", "b", at(1000), None, None, None).len(), 1);
    let hidden_after_expiry = vec![row("a", "b", 1, 100, Some(999))];
    assert_eq!(select(hidden_after_expiry, "a", "b", at(1000), None, None, None).len(), 0);
}

#[test]
fn select_hides_an_entry_whose_expiration_has_passed() {
    let rows = vec![
        row("a", "b", 1, 100, Some(500)),
        row("a", "b", 2, 110, None),
        row("a", "b", 3, 120, Some(1500)),
        row("a", "b", 4, 130, Some(999)),
    ];
    let out = select(rows, "a", "b", at(1000), None, None, None);
    assert_eq!(numbers(&out), vec![3, 2]);
    assert_eq!(out[0].expires_on, Some(at(1500)));
    assert_eq!(out[1].expires_on, None);
}

#[test]
fn select_shows_an_entry_that_expires_at_the_time_of_the_query() {
    let rows = vec![row("a", "b", 1, 100, Some(1000))];
    let out = select(rows, "a", "b", at(1000), None, None, None);
    assert_eq!(numbers(&out), vec![1]);
    let rows = vec![row("a", "b", 1, 100, Some(1000))];
    let now = Timestamp::new(1000, 1).unwrap();
    assert!(select(rows, "a", "b", now, None, None, None).is_empty());
}

#[test]
fn select_matches_scope_and_key_exactly() {
    let rows = vec![
        row("a", "b", 1, 100, None),
        row("A", "b", 2, 100, None),
        row("a", "B", 3, 100, None),
        row("a", "b ", 4, 100, None),
        row("b", "a", 5, 100, None),
        row("", "", 6, 100, None),
        row("ab", "", 7, 100, None),
    ];
    let out = select(rows.clone(), "a", "b", at(1000), None, None, None);
    assert_eq!(numbers(&out), vec![1]);
    let out = select(rows.clone(), "", "", at(1000), None, None, None);
    assert_eq!(numbers(&out), vec![6]);
    let out = select(rows, "a", "", at(1000), None, None, None);
    assert!(out.is_empty());
}

#[test]
fn select_without_a_match_is_empty() {
    let rows = vec![row("a", "b", 1, 100, None)];
    assert!(select(rows, "x", "y", at(1000), None, None, None).is_empty());
    assert!(select(vec![], "a", "b", at(1000), None, None, Some(5)).is_empty());
}

#[test]
fn select_limit_counts_rows() {
    let rows = vec![row("a", "b", 1, 100, None), row("a", "b", 2, 200, None), row("a", "b", 3, 300, None)];
    assert!(select(rows.clone(), "a", "b", at(1000), None, None, Some(0)).is_empty());
    assert_eq!(numbers(&select(rows.clone(), "a", "b", at(1000), None, None, Some(1))), vec![3]);
    assert_eq!(numbers(&select(rows.clone(), "a", "b", at(1000), None, None, Some(3))), vec![3, 2, 1]);
    assert_eq!(numbers(&select(rows.clone(), "a", "b", at(1000), None, None, Some(4))), vec![3, 2, 1]);
    assert_eq!(
        numbers(&select(rows, "a", "b", at(1000), None, None, Some(u64::MAX))),
        vec![3, 2, 1]
    );
}

#[test]
fn select_without_a_limit_returns_every_match() {
    let mut rows = Vec::new();
    for i in 0..500 {
        rows.push(row("a", "b", i, 1000 + i, None));
    }
    let out = select(rows, "a", "b", at(10_000), None, None, None);
    assert_eq!(out.len(), 500);
    assert_eq!(out[0].value, Json::from(499));
    assert_eq!(out[499].value, Json::from(0));
}

#[test]
fn select_applies_the_limit_after_the_filter() {
    let rows = vec![
        row("a", "b", 1, 100, None),
        row("a", "b", 2, 200, Some(5)),
        row("a", "c", 3, 300, None),
        row("a", "b", 4, 400, None),
        row("a", "b", 5, 500, None),
    ];
    let out = select(rows, "a", "b", at(1000), None, Some(at(450)), Some(2));
    assert_eq!(numbers(&out), vec![4, 1]);
}
