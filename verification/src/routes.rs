//! The gateway: what each request does to the store, and what it reports.

use crate::api::ApiError;
use crate::config::AppConfig;
use crate::entry::{pendings, Entry, Pending, PendingEntry, QueryResult};
use crate::error::{CommitError, QueryError};
use crate::query::{lemma_newest_first_len, seen_by, spec_select, Lookup};
use crate::repo::{appended, ascending, Repo};
use crate::time::Timestamp;
use serde_json::Value as Json;
use vstd::prelude::*;

verus! {

/// One entry of a write request.
#[derive(Debug)]
pub struct ValueInput {
    pub scope: String,
    pub key: String,
    pub value: Json,
    pub expires_on: Option<Timestamp>,
}

/// A query request.
#[derive(Debug)]
pub struct QueryInput {
    pub scope: String,
    pub key: String,
    pub start_on: Option<Timestamp>,
    pub end_on: Option<Timestamp>,
    pub limit: Option<u64>,
}

/// One entry of the answer to a query.
#[derive(Debug)]
pub struct QueryResponse {
    pub value: Json,
    pub created_on: Timestamp,
    pub expires_on: Option<Timestamp>,
}

impl View for ValueInput {
    type V = Pending;

    open spec fn view(&self) -> Pending {
        Pending {
            scope: self.scope@,
            key: self.key@,
            value: self.value,
            expires_on: self.expires_on,
        }
    }
}

impl View for QueryResponse {
    type V = QueryResult;

    open spec fn view(&self) -> QueryResult {
        QueryResult { value: self.value, created_on: self.created_on, expires_on: self.expires_on }
    }
}

/// The contents of a write request.
pub open spec fn inputs(data: Seq<ValueInput>) -> Seq<Pending> {
    data.map_values(|input: ValueInput| input@)
}

/// The contents of the answer to a query.
pub open spec fn responses(out: Seq<QueryResponse>) -> Seq<QueryResult> {
    out.map_values(|response: QueryResponse| response@)
}

/// The liveness probe: the status of a service that is up, 204, for a reply
/// without content.
pub fn status() -> (code: u16)
    ensures
        code == 204,
{
    204
}

/// Turns a write request into the batch that the store takes.
fn batch_of(data: Vec<ValueInput>) -> (values: Vec<PendingEntry>)
    ensures
        pendings(values@) == inputs(data@),
{
    let ghost wanted = inputs(data@);
    let mut values: Vec<PendingEntry> = Vec::new();
    for input in it: data
        invariant
            inputs(it.seq()) == wanted,
            pendings(values@) == wanted.take(it.index() as int),
    {
        let ghost done = it.index() as int;
        proof {
            assert(wanted[done] == input@);
        }
        let ghost kept = values@;
        let value = PendingEntry {
            scope: input.scope,
            key: input.key,
            value: input.value,
            expires_on: input.expires_on,
        };
        proof {
            kept.lemma_push_map_commute(|value: PendingEntry| value@, value);
            wanted.lemma_take_succ_push(done);
        }
        values.push(value);
    }
    proof {
        assert(wanted.take(wanted.len() as int) == wanted);
    }
    values
}

/// Writes a batch of entries, all or none.
///
/// Where the settings or the store itself say read-only, the request is
/// turned down before anything is touched. A failure of the store is
/// reported as such, and then nothing of the batch is kept.
pub fn commit_multiple_data(config: &AppConfig, repo: &mut Repo, data: Vec<ValueInput>) -> (res:
    Result<(), ApiError>)
    ensures
        final(repo).is_readonly() == old(repo).is_readonly(),
        final(repo).is_in_memory() == old(repo).is_in_memory(),
        final(repo).open_mode() == old(repo).open_mode(),
        final(repo).location() == old(repo).location(),
        final(repo).is_laid_out() == old(repo).is_laid_out(),
        config.spec_readonly() || old(repo).is_readonly() ==> res == Err::<(), ApiError>(
            ApiError::ReadonlyDataStore,
        ),
        config.spec_readonly() || old(repo).is_readonly() ==> *final(repo) == *old(repo),
        !config.spec_readonly() && !old(repo).is_readonly() ==> res is Ok || (res matches Err(
            ApiError::UnknownError(_),
        )),
        old(repo).is_in_memory() ==> match res {
            Ok(_) => appended(old(repo)@, inputs(data@), final(repo)@),
            Err(_) => final(repo)@ == old(repo)@,
        },
        old(repo).is_in_memory() && ascending(old(repo)@) && res is Ok ==> ascending(final(repo)@),
{
    if config.readonly() {
        return Err(ApiError::ReadonlyDataStore);
    }
    let values = batch_of(data);
    match repo.commit_values(values.as_slice()) {
        Ok(_) => Ok(()),
        Err(CommitError::Rejected) => Err(ApiError::ReadonlyDataStore),
        Err(CommitError::IoFailure(cause)) => Err(ApiError::UnknownError(cause)),
    }
}

/// Turns the answer of the store into that of the gateway.
fn responses_of(found: Vec<QueryResult>) -> (out: Vec<QueryResponse>)
    ensures
        responses(out@) == found@,
{
    let ghost wanted = found@;
    let mut out: Vec<QueryResponse> = Vec::new();
    for result in it: found
        invariant
            it.seq() == wanted,
            responses(out@) == wanted.take(it.index() as int),
    {
        let ghost done = it.index() as int;
        proof {
            assert(wanted[done] == result);
        }
        let ghost kept = out@;
        let response = QueryResponse {
            value: result.value,
            created_on: result.created_on,
            expires_on: result.expires_on,
        };
        proof {
            kept.lemma_push_map_commute(|response: QueryResponse| response@, response);
            wanted.lemma_take_succ_push(done);
        }
        out.push(response);
    }
    proof {
        assert(wanted.take(wanted.len() as int) == wanted);
    }
    out
}

/// Answers a query at the time that the clock shows: the entries under the
/// `(scope, key)` pair that lie in the window and are not hidden, newest
/// first, at most `limit` of them.
pub fn query_data(repo: &Repo, data: &QueryInput) -> (res: Result<Vec<QueryResponse>, ApiError>)
    ensures
        res matches Ok(out) ==> exists|now: Timestamp|
            now.spec_secs() >= 0 && #[trigger] repo.answered_at(
                now,
                data.scope@,
                data.key@,
                data.start_on,
                data.end_on,
                data.limit,
                responses(out@),
            ),
        res matches Err(error) ==> error is UnknownError,
{
    match repo.query_values(
        data.scope.as_str(),
        data.key.as_str(),
        data.start_on,
        data.end_on,
        data.limit,
    ) {
        Ok(found) => {
            let ghost now = choose|now: Timestamp|
                now.spec_secs() >= 0 && #[trigger] repo.answered_at(
                    now,
                    data.scope@,
                    data.key@,
                    data.start_on,
                    data.end_on,
                    data.limit,
                    found@,
                );
            let res: Result<Vec<QueryResponse>, ApiError> = Ok(responses_of(found));
            proof {
                assert(res matches Ok(out) && now.spec_secs() >= 0 && repo.answered_at(
                    now,
                    data.scope@,
                    data.key@,
                    data.start_on,
                    data.end_on,
                    data.limit,
                    responses(out@),
                ));
            }
            res
        },
        Err(QueryError::IoFailure(cause)) => Err(ApiError::UnknownError(cause)),
    }
}

/// The reply to a fetch, from the answer of the store: the first entry of
/// the answer, which is its newest, or the report that nothing stands under
/// the key where the answer is empty.
pub fn reply_of(key: String, found: Vec<QueryResult>) -> (res: Result<QueryResponse, ApiError>)
    ensures
        match res {
            Ok(response) => found@.len() > 0 && response@ == found@[0],
            Err(ApiError::ValueNotFound(name)) => found@.len() == 0 && name == key,
            Err(_) => false,
        },
{
    let mut found = found;
    if found.len() == 0 {
        return Err(ApiError::ValueNotFound(key));
    }
    let newest = found.remove(0);
    Ok(
        QueryResponse {
            value: newest.value,
            created_on: newest.created_on,
            expires_on: newest.expires_on,
        },
    )
}

/// Fetches the value that stands under a key now: the newest entry under the
/// `(scope, key)` pair that no expiration marker hides. Where there is none
/// the key is reported as not found.
pub fn get_data(scope: String, key: String, repo: &Repo) -> (res: Result<QueryResponse, ApiError>)
    ensures
        res matches Ok(response) ==> exists|now: Timestamp|
            now.spec_secs() >= 0 && #[trigger] repo.answered_at(
                now,
                scope@,
                key@,
                None,
                None,
                Some(1),
                seq![response@],
            ),
        res matches Err(ApiError::ValueNotFound(name)) ==> name == key,
        res matches Err(ApiError::ValueNotFound(_)) ==> exists|now: Timestamp|
            now.spec_secs() >= 0 && #[trigger] repo.answered_at(
                now,
                scope@,
                key@,
                None,
                None,
                Some(1),
                Seq::<QueryResult>::empty(),
            ),
        !(res matches Err(ApiError::ReadonlyDataStore)),
{
    let found = match repo.query_values(scope.as_str(), key.as_str(), None, None, Some(1)) {
        Ok(found) => found,
        Err(QueryError::IoFailure(cause)) => {
            return Err(ApiError::UnknownError(cause));
        },
    };
    let ghost answer = found@;
    let ghost now = choose|now: Timestamp|
        now.spec_secs() >= 0 && #[trigger] repo.answered_at(
            now,
            scope@,
            key@,
            None,
            None,
            Some(1),
            answer,
        );
    proof {
        let log = choose|log: Seq<Entry>|
            {
                &&& repo.is_in_memory() ==> log == repo@
                &&& answer == #[trigger] spec_select(
                    log,
                    Lookup { scope: scope@, key: key@, now, start_on: None, end_on: None },
                    Some(1),
                )
            };
        lemma_newest_first_len(
            log.filter(
                seen_by(Lookup { scope: scope@, key: key@, now, start_on: None, end_on: None }),
            ),
        );
        assert(answer.len() <= 1);
    }
    let res = reply_of(key, found);
    proof {
        if res is Ok {
            assert(answer == seq![answer[0]]);
            assert(res matches Ok(response) && now.spec_secs() >= 0 && repo.answered_at(
                now,
                scope@,
                key@,
                None,
                None,
                Some(1),
                seq![response@],
            ));
        } else {
            assert(answer == Seq::<QueryResult>::empty());
            assert(now.spec_secs() >= 0 && repo.answered_at(
                now,
                scope@,
                key@,
                None,
                None,
                Some(1),
                Seq::<QueryResult>::empty(),
            ));
        }
    }
    res
}

} // verus!
