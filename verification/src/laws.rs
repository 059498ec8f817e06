//! What holds of every log and every lookup.

use crate::entry::{Entry, Pending, QueryResult};
use crate::query::{
    answer, answers, hidden, in_window, latest, lemma_latest, lemma_newest_first_len, newest_first,
    seen_by, spec_select, visible, Lookup,
};
use crate::repo::{appended, ascending, written};
use vstd::prelude::*;

verus! {

/// Ordering by time keeps the entries: an entry stands in `newest_first` of a
/// log if and only if it stands in the log.
pub proof fn lemma_newest_first_keeps(log: Seq<Entry>, entry: Entry)
    ensures
        newest_first(log).contains(entry) <==> log.contains(entry),
    decreases log.len(),
{
    if log.len() > 0 {
        lemma_latest(log);
        let at = latest(log);
        let rest = log.remove(at);
        let ranked = newest_first(log);
        lemma_newest_first_keeps(rest, entry);
        lemma_newest_first_len(rest);
        assert(ranked[0] == log[at]);
        if log.contains(entry) {
            let i = choose|i: int| 0 <= i < log.len() && log[i] == entry;
            if i < at {
                assert(rest[i] == entry);
            } else if i > at {
                assert(rest[i - 1] == entry);
            }
            if i != at {
                let j = choose|j: int| 0 <= j < newest_first(rest).len() && newest_first(rest)[j] == entry;
                assert(ranked[j + 1] == entry);
            }
        }
        if ranked.contains(entry) {
            let j = choose|j: int| 0 <= j < ranked.len() && ranked[j] == entry;
            if j > 0 {
                assert(newest_first(rest)[j - 1] == entry);
                let i = choose|i: int| 0 <= i < rest.len() && rest[i] == entry;
                if i < at {
                    assert(log[i] == entry);
                } else {
                    assert(log[i + 1] == entry);
                }
            }
        }
    }
}

/// `newest_first` runs from the newest entry to the oldest: no entry is
/// followed by one that was written later.
pub proof fn lemma_newest_first_descends(log: Seq<Entry>)
    ensures
        forall|i: int, j: int|
            0 <= i <= j < log.len() ==> (#[trigger] newest_first(log)[i]).created_on.instant() >= (
            #[trigger] newest_first(log)[j]).created_on.instant(),
    decreases log.len(),
{
    if log.len() > 0 {
        lemma_latest(log);
        let at = latest(log);
        let rest = log.remove(at);
        let ranked = newest_first(log);
        lemma_newest_first_descends(rest);
        lemma_newest_first_len(rest);
        assert forall|i: int, j: int| 0 <= i <= j < log.len() implies (#[trigger] ranked[i])
            .created_on.instant() >= (#[trigger] ranked[j]).created_on.instant() by {
            if i == 0 && j > 0 {
                let later = newest_first(rest)[j - 1];
                assert(ranked[j] == later);
                assert(newest_first(rest).contains(later));
                lemma_newest_first_keeps(rest, later);
                let k = choose|k: int| 0 <= k < rest.len() && rest[k] == later;
                if k < at {
                    assert(log[k] == later);
                } else {
                    assert(log[k + 1] == later);
                }
            } else if i > 0 {
                assert(ranked[i] == newest_first(rest)[i - 1]);
                assert(ranked[j] == newest_first(rest)[j - 1]);
            }
        }
    }
}

/// The answer to a lookup runs from the newest entry to the oldest.
pub proof fn lemma_answer_descends(log: Seq<Entry>, lookup: Lookup, limit: Option<u64>)
    ensures
        forall|i: int, j: int|
            0 <= i <= j < spec_select(log, lookup, limit).len() ==> (#[trigger] spec_select(
                log,
                lookup,
                limit,
            )[i]).created_on.instant() >= (#[trigger] spec_select(
                log,
                lookup,
                limit,
            )[j]).created_on.instant(),
{
    let hits = log.filter(seen_by(lookup));
    lemma_newest_first_descends(hits);
    lemma_newest_first_len(hits);
}

/// A limit cuts the answer off and changes nothing else: the limited answer
/// is the beginning of the unlimited one, with `limit` entries or, where
/// there are fewer, with all.
pub proof fn lemma_limit_cuts(log: Seq<Entry>, lookup: Lookup, limit: u64)
    ensures
        spec_select(log, lookup, Some(limit)).len() == if limit < spec_select(
            log,
            lookup,
            None,
        ).len() {
            limit as nat
        } else {
            spec_select(log, lookup, None).len()
        },
        spec_select(log, lookup, Some(limit)) == spec_select(log, lookup, None).take(
            spec_select(log, lookup, Some(limit)).len() as int,
        ),
{
    let hits = newest_first(log.filter(seen_by(lookup)));
    assert(hits.take(hits.len() as int) == hits);
}

/// Without a limit the answer holds every entry that the lookup sees, and
/// nothing else.
pub proof fn lemma_answer_is_complete(log: Seq<Entry>, lookup: Lookup, result: QueryResult)
    ensures
        spec_select(log, lookup, None).contains(result) <==> exists|i: int|
            0 <= i < log.len() && visible(#[trigger] log[i], lookup) && answer(log[i]) == result,
{
    let hits = log.filter(seen_by(lookup));
    let ranked = newest_first(hits);
    let out = spec_select(log, lookup, None);
    lemma_newest_first_len(hits);
    assert(ranked.take(ranked.len() as int) == ranked);
    assert(out == answers(ranked));
    if out.contains(result) {
        let j = choose|j: int| 0 <= j < out.len() && out[j] == result;
        let entry = ranked[j];
        assert(ranked.contains(entry));
        lemma_newest_first_keeps(hits, entry);
        let k = choose|k: int| 0 <= k < hits.len() && hits[k] == entry;
        log.lemma_filter_pred(seen_by(lookup), k);
        log.lemma_filter_contains_rev(seen_by(lookup), entry);
        let i = choose|i: int| 0 <= i < log.len() && log[i] == entry;
        assert(visible(log[i], lookup) && answer(log[i]) == result);
    }
    if exists|i: int| 0 <= i < log.len() && visible(#[trigger] log[i], lookup) && answer(log[i]) == result {
        let i = choose|i: int| 0 <= i < log.len() && visible(#[trigger] log[i], lookup) && answer(log[i]) == result;
        assert(seen_by(lookup)(log[i]));
        log.lemma_filter_contains(seen_by(lookup), i);
        lemma_newest_first_keeps(hits, log[i]);
        let j = choose|j: int| 0 <= j < ranked.len() && ranked[j] == log[i];
        assert(out[j] == result);
    }
}

/// The bounds of the window are inclusive: an entry written exactly at
/// `start_on`, or exactly at `end_on`, is in the answer, as long as the other
/// bound admits it, it stands under the `(scope, key)` pair asked for, and no
/// expiration marker hides it.
pub proof fn lemma_window_is_inclusive(log: Seq<Entry>, lookup: Lookup, i: int)
    requires
        0 <= i < log.len(),
        log[i].scope == lookup.scope,
        log[i].key == lookup.key,
        !hidden(log[i].expires_on, lookup.now),
        ({
            ||| lookup.start_on == Some(log[i].created_on) && in_window(
                log[i].created_on,
                None,
                lookup.end_on,
            )
            ||| lookup.end_on == Some(log[i].created_on) && in_window(
                log[i].created_on,
                lookup.start_on,
                None,
            )
        }),
    ensures
        spec_select(log, lookup, None).contains(answer(log[i])),
{
    assert(visible(log[i], lookup));
    lemma_answer_is_complete(log, lookup, answer(log[i]));
}

/// A lookup that no entry meets has the empty answer, and only such a lookup
/// has it when there is no limit.
pub proof fn lemma_empty_answer(log: Seq<Entry>, lookup: Lookup, limit: Option<u64>)
    ensures
        (forall|i: int| 0 <= i < log.len() ==> !visible(#[trigger] log[i], lookup))
            ==> spec_select(log, lookup, limit) == Seq::<QueryResult>::empty(),
        spec_select(log, lookup, None).len() == 0 ==> (forall|i: int|
            0 <= i < log.len() ==> !visible(#[trigger] log[i], lookup)),
{
    let hits = log.filter(seen_by(lookup));
    lemma_newest_first_len(hits);
    if forall|i: int| 0 <= i < log.len() ==> !visible(#[trigger] log[i], lookup) {
        assert(log.all(|entry: Entry| !seen_by(lookup)(entry)));
        log.lemma_all_neg_filter_empty(seen_by(lookup));
        assert(spec_select(log, lookup, limit) == Seq::<QueryResult>::empty());
    }
    if spec_select(log, lookup, None).len() == 0 {
        assert forall|i: int| 0 <= i < log.len() implies !visible(#[trigger] log[i], lookup) by {
            if visible(log[i], lookup) {
                lemma_answer_is_complete(log, lookup, answer(log[i]));
            }
        }
    }
}

/// With the limit one a lookup returns the newest entry that it sees: none
/// that it sees was written later, and of those written at the same time it
/// is the one that stands last in the log.
pub proof fn lemma_limit_one_is_newest(log: Seq<Entry>, lookup: Lookup)
    requires
        log.filter(seen_by(lookup)).len() > 0,
    ensures
        spec_select(log, lookup, Some(1)) == seq![
            answer(log.filter(seen_by(lookup))[latest(log.filter(seen_by(lookup)))]),
        ],
        forall|i: int|
            0 <= i < log.len() && visible(#[trigger] log[i], lookup) ==> log[i].created_on.instant()
                <= spec_select(log, lookup, Some(1))[0].created_on.instant(),
{
    let hits = log.filter(seen_by(lookup));
    lemma_latest(hits);
    lemma_newest_first_len(hits);
    assert(spec_select(log, lookup, Some(1)) == seq![answer(hits[latest(hits)])]);
    assert forall|i: int| 0 <= i < log.len() && visible(#[trigger] log[i], lookup) implies log[i]
        .created_on.instant() <= hits[latest(hits)].created_on.instant() by {
        assert(seen_by(lookup)(log[i]));
        log.lemma_filter_contains(seen_by(lookup), i);
        let k = choose|k: int| 0 <= k < hits.len() && hits[k] == log[i];
        assert(hits[k].created_on.instant() <= hits[latest(hits)].created_on.instant());
    }
}

/// With three entries under a `(scope, key)` pair, written at three
/// different times, a lookup with the limit two returns the newest and then
/// the one before it.
pub proof fn lemma_two_newest_of_three(
    log: Seq<Entry>,
    lookup: Lookup,
    oldest: Entry,
    middle: Entry,
    newest: Entry,
)
    requires
        log.filter(seen_by(lookup)).len() == 3,
        log.filter(seen_by(lookup)).contains(oldest),
        log.filter(seen_by(lookup)).contains(middle),
        log.filter(seen_by(lookup)).contains(newest),
        oldest.created_on.instant() < middle.created_on.instant() < newest.created_on.instant(),
    ensures
        spec_select(log, lookup, Some(2)) == seq![answer(newest), answer(middle)],
{
    let hits = log.filter(seen_by(lookup));
    let ranked = newest_first(hits);
    lemma_newest_first_len(hits);
    lemma_newest_first_descends(hits);
    lemma_newest_first_keeps(hits, oldest);
    lemma_newest_first_keeps(hits, middle);
    lemma_newest_first_keeps(hits, newest);
    let a = choose|a: int| 0 <= a < ranked.len() && ranked[a] == oldest;
    let b = choose|b: int| 0 <= b < ranked.len() && ranked[b] == middle;
    let c = choose|c: int| 0 <= c < ranked.len() && ranked[c] == newest;
    assert(c < b < a) by {
        if b <= c {
            assert(ranked[b].created_on.instant() >= ranked[c].created_on.instant());
        }
        if a <= b {
            assert(ranked[a].created_on.instant() >= ranked[b].created_on.instant());
        }
    }
    assert(spec_select(log, lookup, Some(2)) == seq![answer(newest), answer(middle)]);
}

/// The log only grows. After a batch has been appended:
/// every entry that was there is there still, unchanged and in its place;
/// a lookup without a limit still returns whatever it returned before; and
/// it returns each entry of the batch that stands under its `(scope, key)`
/// pair, was written inside its window and is not hidden by an expiration
/// marker.
pub proof fn lemma_append_only(
    before: Seq<Entry>,
    batch: Seq<Pending>,
    after: Seq<Entry>,
    lookup: Lookup,
)
    requires
        appended(before, batch, after),
    ensures
        forall|i: int| 0 <= i < before.len() ==> #[trigger] after[i] == before[i],
        forall|result: QueryResult| #[trigger]
            spec_select(before, lookup, None).contains(result) ==> spec_select(
                after,
                lookup,
                None,
            ).contains(result),
        forall|i: int|
            before.len() <= i < after.len() && batch[i - before.len()].scope == lookup.scope
                && batch[i - before.len()].key == lookup.key && in_window(
                (#[trigger] after[i]).created_on,
                lookup.start_on,
                lookup.end_on,
            ) && !hidden(batch[i - before.len()].expires_on, lookup.now) ==> spec_select(
                after,
                lookup,
                None,
            ).contains(answer(after[i])),
{
    assert forall|i: int| 0 <= i < before.len() implies #[trigger] after[i] == before[i] by {
        assert(after.take(before.len() as int)[i] == after[i]);
    }
    assert forall|result: QueryResult| #[trigger]
        spec_select(before, lookup, None).contains(result) implies spec_select(
        after,
        lookup,
        None,
    ).contains(result) by {
        lemma_answer_is_complete(before, lookup, result);
        let i = choose|i: int|
            0 <= i < before.len() && visible(#[trigger] before[i], lookup) && answer(before[i])
                == result;
        assert(after[i] == before[i]);
        lemma_answer_is_complete(after, lookup, result);
    }
    assert forall|i: int|
        before.len() <= i < after.len() && batch[i - before.len()].scope == lookup.scope
            && batch[i - before.len()].key == lookup.key && in_window(
            (#[trigger] after[i]).created_on,
            lookup.start_on,
            lookup.end_on,
        ) && !hidden(batch[i - before.len()].expires_on, lookup.now) implies spec_select(
        after,
        lookup,
        None,
    ).contains(answer(after[i])) by {
        assert(written(batch[i - before.len()], after[i]));
        assert(visible(after[i], lookup));
        lemma_answer_is_complete(after, lookup, answer(after[i]));
    }
}

/// Times of writing that do not go back stay so. Where they never go back
/// along the log, nor along the rows of a batch, and the first row of the
/// batch was not written before the last entry of the log, they never go
/// back along the log with the batch appended.
pub proof fn lemma_times_do_not_go_back(log: Seq<Entry>, rows: Seq<Entry>)
    requires
        ascending(log),
        ascending(rows),
        log.len() > 0 && rows.len() > 0 ==> log.last().created_on.instant()
            <= rows.first().created_on.instant(),
    ensures
        ascending(log + rows),
{
    let after = log + rows;
    assert forall|i: int, j: int| 0 <= i <= j < after.len() implies (#[trigger] after[i])
        .created_on.instant() <= (#[trigger] after[j]).created_on.instant() by {
        if j < log.len() {
            assert(after[i] == log[i] && after[j] == log[j]);
        } else if i >= log.len() {
            assert(after[i] == rows[i - log.len()] && after[j] == rows[j - log.len()]);
        } else {
            assert(after[i] == log[i] && after[j] == rows[j - log.len()]);
            assert(log[i].created_on.instant() <= log.last().created_on.instant());
            assert(rows.first().created_on.instant() <= rows[j - log.len()].created_on.instant());
        }
    }
}

/// Along a log whose times of writing never go back, a lookup without a
/// limit returns what it sees in the reverse of the order in which it was
/// written.
pub proof fn lemma_ascending_log_is_answered_backwards(log: Seq<Entry>, lookup: Lookup)
    requires
        ascending(log),
    ensures
        spec_select(log, lookup, None) == answers(log.filter(seen_by(lookup)).reverse()),
{
    let hits = log.filter(seen_by(lookup));
    lemma_filter_keeps_ascending(log, lookup);
    lemma_ascending_newest_first(hits);
    lemma_newest_first_len(hits);
    assert(newest_first(hits).take(hits.len() as int) == newest_first(hits));
}

proof fn lemma_filter_keeps_ascending(log: Seq<Entry>, lookup: Lookup)
    requires
        ascending(log),
    ensures
        ascending(log.filter(seen_by(lookup))),
        forall|i: int|
            0 <= i < log.filter(seen_by(lookup)).len() && log.len() > 0 ==> (
            #[trigger] log.filter(seen_by(lookup))[i]).created_on.instant()
                <= log.last().created_on.instant(),
    decreases log.len(),
{
    reveal(Seq::filter);
    if log.len() > 0 {
        let rest = log.drop_last();
        assert forall|i: int, j: int| 0 <= i <= j < rest.len() implies (#[trigger] rest[i])
            .created_on.instant() <= (#[trigger] rest[j]).created_on.instant() by {
            assert(rest[i] == log[i] && rest[j] == log[j]);
        }
        lemma_filter_keeps_ascending(rest, lookup);
        let kept = rest.filter(seen_by(lookup));
        assert forall|i: int| 0 <= i < kept.len() implies (#[trigger] kept[i]).created_on.instant()
            <= log.last().created_on.instant() by {
            assert(rest.last() == log[log.len() - 2]);
            assert(log[log.len() - 2].created_on.instant() <= log[log.len() - 1].created_on.instant());
        }
    }
}

proof fn lemma_ascending_newest_first(log: Seq<Entry>)
    requires
        ascending(log),
    ensures
        newest_first(log) == log.reverse(),
    decreases log.len(),
{
    if log.len() > 0 {
        lemma_latest(log);
        let at = latest(log);
        let last = log.len() - 1;
        assert(at == last) by {
            if at < last {
                assert(log[last].created_on.instant() < log[at].created_on.instant());
                assert(log[at].created_on.instant() <= log[last].created_on.instant());
            }
        }
        let rest = log.remove(at);
        assert forall|i: int, j: int| 0 <= i <= j < rest.len() implies (#[trigger] rest[i])
            .created_on.instant() <= (#[trigger] rest[j]).created_on.instant() by {
            assert(rest[i] == log[i] && rest[j] == log[j]);
        }
        lemma_ascending_newest_first(rest);
        lemma_newest_first_len(rest);
        assert(newest_first(log) =~= log.reverse());
    }
}

} // verus!
