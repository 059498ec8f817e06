//! The read path: which entries a lookup sees, in which order, and how many.

use crate::entry::{entries, Entry, QueryResult, Value};
use crate::time::Timestamp;
use vstd::prelude::*;

verus! {

/// What a lookup asks for: the `(scope, key)` pair, the time at which it is
/// answered, and the inclusive window on the time of writing.
pub struct Lookup {
    pub scope: Seq<char>,
    pub key: Seq<char>,
    pub now: Timestamp,
    pub start_on: Option<Timestamp>,
    pub end_on: Option<Timestamp>,
}

/// Whether a time of writing lies in the window. Both bounds are inclusive,
/// and an absent bound does not restrict.
pub open spec fn in_window(
    created_on: Timestamp,
    start_on: Option<Timestamp>,
    end_on: Option<Timestamp>,
) -> bool {
    &&& start_on matches Some(start) ==> start.instant() <= created_on.instant()
    &&& end_on matches Some(end) ==> created_on.instant() <= end.instant()
}

/// Whether an expiration marker hides an entry at `now`: it does once it lies
/// in the past. An entry without a marker is never hidden.
pub open spec fn hidden(expires_on: Option<Timestamp>, now: Timestamp) -> bool {
    expires_on matches Some(expiry) && expiry.instant() < now.instant()
}

/// Whether a lookup sees an entry.
pub open spec fn visible(entry: Entry, lookup: Lookup) -> bool {
    &&& entry.scope == lookup.scope
    &&& entry.key == lookup.key
    &&& in_window(entry.created_on, lookup.start_on, lookup.end_on)
    &&& !hidden(entry.expires_on, lookup.now)
}

/// Whether an entry stands under a `(scope, key)` pair, as a predicate on
/// entries.
pub open spec fn kept_under(scope: Seq<char>, key: Seq<char>) -> spec_fn(Entry) -> bool {
    |entry: Entry| entry.scope == scope && entry.key == key
}

/// `visible`, as a predicate on entries.
pub open spec fn seen_by(lookup: Lookup) -> spec_fn(Entry) -> bool {
    |entry: Entry| visible(entry, lookup)
}

/// The position of the newest entry of a non-empty sequence: the one written
/// last, and among entries written at the same time the one that stands last.
pub open spec fn latest(log: Seq<Entry>) -> int
    decreases log.len(),
{
    if log.len() <= 1 {
        0
    } else {
        let before = latest(log.drop_last());
        if log.last().created_on.instant() < log[before].created_on.instant() {
            before
        } else {
            log.len() - 1
        }
    }
}

/// The entries from the newest to the oldest. Entries written at the same
/// time come in the reverse of the order in which they stand.
pub open spec fn newest_first(log: Seq<Entry>) -> Seq<Entry>
    decreases log.len(),
    via newest_first_terminates
{
    if log.len() == 0 {
        Seq::empty()
    } else {
        seq![log[latest(log)]] + newest_first(log.remove(latest(log)))
    }
}

#[via_fn]
proof fn newest_first_terminates(log: Seq<Entry>) {
    if log.len() > 0 {
        lemma_latest(log);
    }
}

/// What a query returns of an entry.
pub open spec fn answer(entry: Entry) -> QueryResult {
    QueryResult { value: entry.value, created_on: entry.created_on, expires_on: entry.expires_on }
}

/// What a query returns of a sequence of entries.
pub open spec fn answers(log: Seq<Entry>) -> Seq<QueryResult> {
    log.map_values(|entry: Entry| answer(entry))
}

/// How many of `count` entries a limit lets through: all of them where the
/// limit is absent.
pub open spec fn capped(count: nat, limit: Option<u64>) -> nat {
    match limit {
        Some(most) => if most < count {
            most as nat
        } else {
            count
        },
        None => count,
    }
}

/// The answer to a lookup on a log: the entries that the lookup sees, from the
/// newest to the oldest, cut off after `limit` entries.
pub open spec fn spec_select(log: Seq<Entry>, lookup: Lookup, limit: Option<u64>) -> Seq<
    QueryResult,
> {
    let hits = newest_first(log.filter(seen_by(lookup)));
    answers(hits.take(capped(hits.len(), limit) as int))
}

/// `latest` names a position of the sequence, nothing before it is newer and
/// everything after it is older.
pub proof fn lemma_latest(log: Seq<Entry>)
    requires
        log.len() > 0,
    ensures
        0 <= latest(log) < log.len(),
        forall|i: int|
            0 <= i < log.len() ==> (#[trigger] log[i]).created_on.instant() <= log[latest(
                log,
            )].created_on.instant(),
        forall|i: int|
            latest(log) < i < log.len() ==> (#[trigger] log[i]).created_on.instant() < log[latest(
                log,
            )].created_on.instant(),
    decreases log.len(),
{
    if log.len() > 1 {
        lemma_latest(log.drop_last());
        let before = latest(log.drop_last());
        assert forall|i: int| 0 <= i < log.len() implies (#[trigger] log[i]).created_on.instant()
            <= log[latest(log)].created_on.instant() by {
            if i < log.len() - 1 {
                assert(log.drop_last()[i] == log[i]);
            }
        }
        assert forall|i: int| latest(log) < i < log.len() implies (#[trigger] log[i])
            .created_on.instant() < log[latest(log)].created_on.instant() by {
            if i < log.len() - 1 {
                assert(log.drop_last()[i] == log[i]);
            }
        }
    }
}

/// `newest_first` keeps the number of entries.
pub proof fn lemma_newest_first_len(log: Seq<Entry>)
    ensures
        newest_first(log).len() == log.len(),
    decreases log.len(),
{
    if log.len() > 0 {
        lemma_latest(log);
        lemma_newest_first_len(log.remove(latest(log)));
    }
}

/// A lookup is answered alike on a log and on what the log holds under the
/// lookup's `(scope, key)` pair.
pub proof fn lemma_narrowed(log: Seq<Entry>, lookup: Lookup, limit: Option<u64>)
    ensures
        spec_select(log.filter(kept_under(lookup.scope, lookup.key)), lookup, limit) == spec_select(
            log,
            lookup,
            limit,
        ),
{
    lemma_filter_twice(log, lookup);
}

proof fn lemma_filter_twice(log: Seq<Entry>, lookup: Lookup)
    ensures
        log.filter(kept_under(lookup.scope, lookup.key)).filter(seen_by(lookup)) == log.filter(
            seen_by(lookup),
        ),
    decreases log.len(),
{
    reveal(Seq::filter);
    if log.len() > 0 {
        lemma_filter_twice(log.drop_last(), lookup);
        log.drop_last().filter(kept_under(lookup.scope, lookup.key)).lemma_filter_push(
            log.last(),
            seen_by(lookup),
        );
    }
}

fn is_visible(
    row: &Value,
    scope: &String,
    key: &String,
    now: Timestamp,
    start_on: Option<Timestamp>,
    end_on: Option<Timestamp>,
) -> (seen: bool)
    ensures
        seen == visible(row@, (Lookup { scope: scope@, key: key@, now, start_on, end_on })),
{
    if !(row.scope == *scope && row.key == *key) {
        return false;
    }
    if let Some(start) = start_on {
        if row.created_on.is_before(&start) {
            return false;
        }
    }
    if let Some(end) = end_on {
        if end.is_before(&row.created_on) {
            return false;
        }
    }
    match row.expires_on {
        Some(expiry) => !expiry.is_before(&now),
        None => true,
    }
}

/// Keeps the rows that a lookup sees, in their order.
fn keep_visible(
    rows: Vec<Value>,
    scope: &String,
    key: &String,
    now: Timestamp,
    start_on: Option<Timestamp>,
    end_on: Option<Timestamp>,
) -> (hits: Vec<Value>)
    ensures
        entries(hits@) == entries(rows@).filter(
            seen_by((Lookup { scope: scope@, key: key@, now, start_on, end_on })),
        ),
{
    let ghost lookup = Lookup { scope: scope@, key: key@, now, start_on, end_on };
    let ghost log = entries(rows@);
    let mut hits: Vec<Value> = Vec::new();
    proof {
        reveal(Seq::filter);
        assert(log.take(0).filter(seen_by(lookup)) == Seq::<Entry>::empty());
    }
    for row in it: rows
        invariant
            lookup == (Lookup { scope: scope@, key: key@, now, start_on, end_on }),
            entries(it.seq()) == log,
            entries(hits@) == log.take(it.index() as int).filter(seen_by(lookup)),
    {
        let ghost done = it.index() as int;
        let ghost kept = hits@;
        let seen = is_visible(&row, scope, key, now, start_on, end_on);
        proof {
            assert(log[done] == row@);
            log.lemma_take_succ_push(done);
            log.take(done).lemma_filter_push(row@, seen_by(lookup));
        }
        if seen {
            hits.push(row);
            proof {
                kept.lemma_push_map_commute(|row: Value| row@, row);
                assert(entries(hits@) == entries(kept).push(row@));
            }
        }
    }
    proof {
        log.lemma_take_len();
    }
    hits
}

/// Finds the newest of the rows.
fn find_latest(rows: &Vec<Value>) -> (at: usize)
    requires
        rows.len() > 0,
    ensures
        at == latest(entries(rows@)),
        at < rows.len(),
{
    let ghost log = entries(rows@);
    let mut at: usize = 0;
    let mut next: usize = 1;
    while next < rows.len()
        invariant
            log == entries(rows@),
            1 <= next <= rows.len(),
            at < next,
            at == latest(log.take(next as int)),
        decreases rows.len() - next,
    {
        proof {
            assert(log.take(next + 1).drop_last() == log.take(next as int));
            assert(log.take(next + 1).last() == rows[next as int]@);
            assert(log.take(next as int)[at as int] == rows[at as int]@);
        }
        if !rows[next].created_on.is_before(&rows[at].created_on) {
            at = next;
        }
        next = next + 1;
    }
    proof {
        log.lemma_take_len();
    }
    at
}

/// Answers a lookup on the rows of a log, which stand in the order in which
/// they were written.
///
/// The answer holds the rows of `(scope, key)` that were written inside the
/// inclusive window from `start_on` to `end_on` and that no expiration marker
/// hides at `now`. The newest row comes first; of rows written at the same
/// time the one written later comes first. A `limit` cuts the answer off after
/// that many rows, and without one the answer holds every such row. Where
/// no row qualifies the answer is empty.
pub fn select(
    rows: Vec<Value>,
    scope: &str,
    key: &str,
    now: Timestamp,
    start_on: Option<Timestamp>,
    end_on: Option<Timestamp>,
    limit: Option<u64>,
) -> (out: Vec<QueryResult>)
    ensures
        out@ == spec_select(
            entries(rows@),
            (Lookup { scope: scope@, key: key@, now, start_on, end_on }),
            limit,
        ),
{
    let ghost lookup = Lookup { scope: scope@, key: key@, now, start_on, end_on };
    let ghost log = entries(rows@);
    let scope = String::from_str(scope);
    let key = String::from_str(key);
    let mut hits = keep_visible(rows, &scope, &key, now, start_on, end_on);
    let ghost found = entries(hits@);
    let wanted: usize = match limit {
        Some(most) => if most < hits.len() as u64 {
            most as usize
        } else {
            hits.len()
        },
        None => hits.len(),
    };
    proof {
        lemma_newest_first_len(found);
    }
    let mut out: Vec<QueryResult> = Vec::new();
    while out.len() < wanted
        invariant
            found == log.filter(seen_by(lookup)),
            newest_first(found).len() == found.len(),
            wanted == capped(found.len(), limit),
            out.len() <= wanted,
            out.len() + hits.len() == found.len(),
            newest_first(found) == newest_first(found).take(out.len() as int) + newest_first(
                entries(hits@),
            ),
            out@ == answers(newest_first(found).take(out.len() as int)),
        decreases wanted - out.len(),
    {
        let ghost rest = entries(hits@);
        let ghost taken = out@.len() as int;
        let ghost ranked = newest_first(found);
        let at = find_latest(&hits);
        let row = hits.remove(at);
        proof {
            assert(entries(hits@) == rest.remove(at as int));
            assert(rest[at as int] == row@);
            lemma_newest_first_len(rest);
            lemma_newest_first_len(rest.remove(at as int));
            assert(ranked[taken] == row@);
            assert(ranked.take(taken + 1) == ranked.take(taken).push(row@));
            assert(ranked == ranked.take(taken + 1) + newest_first(entries(hits@)));
            ranked.take(taken).lemma_push_map_commute(
                |entry: Entry| answer(entry),
                row@,
            );
        }
        out.push(
            QueryResult { value: row.value, created_on: row.created_on, expires_on: row.expires_on },
        );
    }
    out
}

} // verus!
