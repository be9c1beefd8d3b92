//! The logic of the HTTP API: what each endpoint runs and how it answers.
//! The server around it (routing, JSON decoding, the blocking thread pool)
//! hands each request to these functions and sends back the status code and
//! the JSON reply that they return.

use std::collections::BTreeMap;
use vstd::prelude::*;
use crate::json::{Json, Jv, obj_of, is_obj, field};
use crate::db::{self, DbRows, Ran};
use crate::engine;
use crate::reply::{self, error_map, is_rows_json, timed_error_map, batch_map, validate_map, health_map, count_of, outcome_error};
use crate::script;
use crate::text::{views, joined};
use crate::embedded::{schema_listing, is_schema_listing, BackendResult};
use crate::cli::{failed, is_failure};

verus! {

/// HTTP 200.
pub const STATUS_OK: u16 = 200;

/// HTTP 400: the database refused the request.
pub const STATUS_BAD_REQUEST: u16 = 400;

/// HTTP 500: the request could not be carried out.
pub const STATUS_INTERNAL_ERROR: u16 = 500;

/// Body of `POST /api/relations/:name/describe`.
pub struct DescribePayload {
    pub description: Option<String>,
}

/// Body of `POST /api/explain`.
pub struct ExplainPayload {
    pub script: String,
}

/// Body of `POST /api/validate`.
pub struct ValidatePayload {
    pub script: String,
}

/// Body of `POST /api/query`; a `limit` of 0 means no limit.
pub struct ApiQueryPayload {
    pub script: String,
    pub params: BTreeMap<String, serde_json::Value>,
    pub immutable: bool,
    pub limit: usize,
    pub offset: usize,
}

/// Body of `POST /api/remove-relations`.
pub struct RemoveRelationsPayload {
    pub relations: Vec<String>,
}

/// Body of `POST /api/rename-relations`.
pub struct RenameRelationsPayload {
    pub renames: Vec<RenameEntry>,
}

/// One rename: relation `from` becomes `to`.
pub struct RenameEntry {
    pub from: String,
    pub to: String,
}

/// Body of `POST /api/access-level`; `level` is one of `normal`, `protected`,
/// `read_only`, `hidden`.
pub struct AccessLevelPayload {
    pub level: String,
    pub relations: Vec<String>,
}

/// Body of `POST /api/batch`.
pub struct BatchPayload {
    pub queries: Vec<BatchQuery>,
    pub transactional: bool,
}

/// One query of a batch.
pub struct BatchQuery {
    pub script: String,
    pub params: BTreeMap<String, serde_json::Value>,
}

/// Body of `POST /api/relations/:name/indices`.
pub struct CreateIndexPayload {
    pub index_name: String,
    pub columns: Vec<String>,
}

/// What the server holds: the open database and the name of its engine.
pub struct DbState {
    pub db: engine::Database,
    pub engine: String,
}

/// The answer to a request: status code and JSON body.
pub type ApiReply = (u16, Json);

/// The answer with a result: 200 and its JSON with `"ok": true`, or 400 and the
/// error.
pub open spec fn is_rows_answer(res: ApiReply, out: Result<DbRows, String>) -> bool {
    match out {
        Ok(r) => res.0 == STATUS_OK && is_rows_json(res.1@, views(r.headers@), r.rows@, r.next@, map!["ok"@ => Jv::Bool(true)]),
        Err(m) => res.0 == STATUS_BAD_REQUEST && is_obj(res.1@, error_map(m@)),
    }
}

/// The answer without a result: 200 and `{"ok": true}`, or 400 and the error.
pub open spec fn is_done_answer(res: ApiReply, out: Result<DbRows, String>) -> bool {
    match out {
        Ok(_) => res.0 == STATUS_OK && is_obj(res.1@, map!["ok"@ => Jv::Bool(true)]),
        Err(m) => res.0 == STATUS_BAD_REQUEST && is_obj(res.1@, error_map(m@)),
    }
}

/// The answer with a result: 200 and its JSON with `"ok": true`, or 400 and the
/// error.
pub fn rows_answer(out: Result<DbRows, String>) -> (res: ApiReply)
    ensures
        is_rows_answer(res, out),
{
    match out {
        Ok(r) => (STATUS_OK, reply::rows_reply(Ok(r))),
        Err(m) => (STATUS_BAD_REQUEST, reply::error_reply(m.as_str())),
    }
}

/// The answer without a result: 200 and `{"ok": true}`, or 400 and the error.
pub fn done_answer(out: Result<DbRows, String>) -> (res: ApiReply)
    ensures
        is_done_answer(res, out),
{
    match out {
        Ok(_) => (STATUS_OK, reply::ok_reply()),
        Err(m) => (STATUS_BAD_REQUEST, reply::error_reply(m.as_str())),
    }
}

/// The answer to a request whose work could not be carried out at all (the
/// worker running it failed): 500 and the error.
pub fn failed_answer(message: &str) -> (res: ApiReply)
    ensures
        res.0 == STATUS_INTERNAL_ERROR,
        is_obj(res.1@, error_map(message@)),
{
    (STATUS_INTERNAL_ERROR, reply::error_reply(message))
}

/// The answer carrying a backend's reply: 200 for a reply that does not say
/// `"ok": false`, 400 for one that does, and 500 with the error when the
/// backend could not reply at all.
pub fn backend_answer(res: BackendResult) -> (ans: ApiReply)
    ensures
        res matches Ok(j) ==> ans.1 == j && ans.0 == (if is_failure(j@) { STATUS_BAD_REQUEST } else { STATUS_OK }),
        res matches Err(m) ==> ans.0 == STATUS_INTERNAL_ERROR && is_obj(ans.1@, error_map(m@)),
{
    match res {
        Ok(j) => {
            if failed(&j) {
                (STATUS_BAD_REQUEST, j)
            } else {
                (STATUS_OK, j)
            }
        },
        Err(m) => (STATUS_INTERNAL_ERROR, reply::error_reply(m.as_str())),
    }
}

/// The answer to a health request whose listings could not be run at all: 500,
/// `"status": "error"` and the error.
pub fn health_failed_answer(message: &str) -> (res: ApiReply)
    ensures
        res.0 == STATUS_INTERNAL_ERROR,
        is_obj(res.1@, error_map(message@).insert("status"@, Jv::Str("error"@))),
{
    let mut j = reply::error_reply(message);
    j.set("status", Json::text("error"));
    (STATUS_INTERNAL_ERROR, j)
}

impl DbState {
    /// Opens the database `engine` at `path` for serving; the engine's error as
    /// text. This build holds the `mem` and `sqlite` engines.
    pub fn open(engine: &str, path: &str, config: &str) -> (res: Result<DbState, String>)
        ensures
            res matches Ok(st) ==> st.engine@ == engine@ && st.db.opened() == (engine@, path@, config@),
            engine@ != "mem"@ && engine@ != "sqlite"@ ==> (res matches Err(m) && m@ == db::unsupported_engine(engine@)),
    {
        match engine::open(engine, path, config) {
            Ok(db) => Ok(DbState { db, engine: String::from_str(engine) }),
            Err(e) => Err(e),
        }
    }

    fn run(&self, script: &str, mutable: bool) -> (res: Ran)
        ensures
            res.is_plain_call(script@, mutable),
    {
        db::run_plain(&self.db, script, mutable)
    }
}

/// The answer of the system command `script` (run with no parameters, writing
/// when `mutable`): its result or its error.
pub open spec fn is_sys_answer(res: ApiReply, script: Seq<char>, mutable: bool) -> bool {
    exists|ran: Ran| ran.is_plain_call(script, mutable) && #[trigger] is_rows_answer(res, ran.outcome())
}

/// The answer of the system command `script`, run as one that may change the
/// database, whose result is not shown: `{"ok": true}` or its error.
pub open spec fn is_sys_done_answer(res: ApiReply, script: Seq<char>) -> bool {
    exists|ran: Ran| ran.is_plain_call(script, true) && #[trigger] is_done_answer(res, ran.outcome())
}

/// Runs `script` and answers with its result.
fn rows_call(st: &DbState, script: &str, mutable: bool) -> (res: ApiReply)
    ensures
        is_sys_answer(res, script@, mutable),
{
    let ran = st.run(script, mutable);
    let ghost g = ran;
    let res = rows_answer(ran.into_outcome());
    assert(is_rows_answer(res, g.outcome()));
    res
}

/// Runs `script` as a command that may change the database and answers
/// `{"ok": true}` or its error.
fn done_call(st: &DbState, script: &str) -> (res: ApiReply)
    ensures
        is_sys_done_answer(res, script@),
{
    let ran = st.run(script, true);
    let ghost g = ran;
    let res = done_answer(ran.into_outcome());
    assert(is_done_answer(res, g.outcome()));
    res
}

/// `GET /api/health`: 200 with the status, the engine, and the numbers of rows
/// of `::relations`, `::running` and `::fixed_rules` (0 for a failed listing).
pub fn health(st: &DbState) -> (res: ApiReply)
    ensures
        res.0 == STATUS_OK,
        exists|a: Ran, b: Ran, c: Ran| {
            &&& a.is_plain_call("::relations"@, false)
            &&& b.is_plain_call("::running"@, false)
            &&& c.is_plain_call("::fixed_rules"@, false)
            &&& #[trigger] is_obj(res.1@, health_map(st.engine@, None, count_of(a.outcome()), count_of(b.outcome()), count_of(c.outcome())))
        },
{
    let ra = st.run("::relations", false);
    let rb = st.run("::running", false);
    let rc = st.run("::fixed_rules", false);
    let ghost (ga, gb, gc) = (ra, rb, rc);
    let relations = ra.into_outcome();
    let running = rb.into_outcome();
    let fixed_rules = rc.into_outcome();
    let j = reply::health_reply(st.engine.as_str(), None, &relations, &running, &fixed_rules);
    assert(ga.is_plain_call("::relations"@, false));
    assert(gb.is_plain_call("::running"@, false));
    assert(gc.is_plain_call("::fixed_rules"@, false));
    assert(is_obj(j@, health_map(st.engine@, None, count_of(ga.outcome()), count_of(gb.outcome()), count_of(gc.outcome()))));
    let res = (STATUS_OK, j);
    assert(is_obj(res.1@, health_map(st.engine@, None, count_of(ga.outcome()), count_of(gb.outcome()), count_of(gc.outcome()))));
    res
}

/// `GET /api/relations`: `::relations`.
pub fn list_relations(st: &DbState) -> (res: ApiReply)
    ensures
        is_sys_answer(res, "::relations"@, false),
{
    rows_call(st, "::relations", false)
}

/// `GET /api/relations/:name/columns`: `::columns <name>`.
pub fn list_columns(st: &DbState, name: &str) -> (res: ApiReply)
    ensures
        is_sys_answer(res, "::columns "@ + name@, false),
{
    let s = script::columns_script(name);
    rows_call(st, s.as_str(), false)
}

/// `GET /api/relations/:name/indices`: `::indices <name>`.
pub fn list_indices(st: &DbState, name: &str) -> (res: ApiReply)
    ensures
        is_sys_answer(res, "::indices "@ + name@, false),
{
    let s = script::indices_script(name);
    rows_call(st, s.as_str(), false)
}

/// `GET /api/relations/:name/triggers`: `::show_triggers <name>`.
pub fn show_triggers(st: &DbState, name: &str) -> (res: ApiReply)
    ensures
        is_sys_answer(res, "::show_triggers "@ + name@, false),
{
    let s = script::triggers_script(name);
    rows_call(st, s.as_str(), false)
}

/// `POST /api/relations/:name/describe`: `::describe <name> '<description>'`.
pub fn describe_relation(st: &DbState, name: &str, payload: &DescribePayload) -> (res: ApiReply)
    ensures
        is_sys_answer(res, match payload.description {
            Some(d) => "::describe "@ + name@ + " '"@ + script::escaped(d@, '\'', false) + "'"@,
            None => "::describe "@ + name@,
        }, true),
{
    let s = script::describe_script_single_quoted(name, &payload.description);
    rows_call(st, s.as_str(), true)
}

/// `GET /api/schema`: 200 with the schema listing, or 500 with the failure of
/// `::relations` or of the first failed `::columns`.
pub fn full_schema(st: &DbState) -> (res: ApiReply)
    ensures
        is_schema_listing(res.1@),
        res.0 == (if is_failure(res.1@) { STATUS_INTERNAL_ERROR } else { STATUS_OK }),
{
    match schema_listing(&st.db) {
        Ok(j) => {
            if failed(&j) {
                (STATUS_INTERNAL_ERROR, j)
            } else {
                (STATUS_OK, j)
            }
        },
        Err(m) => {
            assert(false);
            (STATUS_INTERNAL_ERROR, reply::error_reply(m.as_str()))
        },
    }
}

/// `POST /api/explain`: `::explain { <script> }`.
pub fn explain_query(st: &DbState, payload: &ExplainPayload) -> (res: ApiReply)
    ensures
        is_sys_answer(res, "::explain { "@ + payload.script@ + " }"@, false),
{
    let s = script::explain_script(payload.script.as_str());
    rows_call(st, s.as_str(), false)
}

/// `POST /api/validate`: 200 with `"valid"` telling whether `::explain` accepted
/// the script.
pub fn validate_query(st: &DbState, payload: &ValidatePayload) -> (res: ApiReply)
    ensures
        res.0 == STATUS_OK,
        exists|ran: Ran| {
            &&& ran.is_plain_call("::explain { "@ + payload.script@ + " }"@, false)
            &&& #[trigger] is_obj(res.1@, validate_map(payload.script@, outcome_error(ran.outcome())))
        },
{
    let s = script::explain_script(payload.script.as_str());
    let ran = st.run(s.as_str(), false);
    let ghost g = ran;
    let j = reply::validate_reply(payload.script.as_str(), ran.into_outcome());
    let res = (STATUS_OK, j);
    assert(g.is_plain_call("::explain { "@ + payload.script@ + " }"@, false));
    assert(is_obj(res.1@, validate_map(payload.script@, outcome_error(g.outcome()))));
    res
}

/// `POST /api/query`: 200 with `"ok": true`, the page of rows that `limit` and
/// `offset` select, the row counts, the offset and limit when set, and the
/// time taken; or 400 with the error and the time taken.
pub fn api_query(st: &DbState, payload: &ApiQueryPayload) -> (res: ApiReply)
    ensures
        exists|ran: Ran, e: nat| {
            &&& ran.script() == payload.script@
            &&& ran.params() == payload.params
            &&& ran.mutable() == !payload.immutable
            &&& !ran.in_transaction()
            &&& res.0 == (if ran.outcome() is Ok { STATUS_OK } else { STATUS_BAD_REQUEST })
            &&& #[trigger] reply::is_query_reply(res.1@, ran.outcome(), e, payload.limit as nat, payload.offset as nat, true)
        },
{
    let start = db::clock_start();
    let ran = db::run(&st.db, payload.script.as_str(), &payload.params, !payload.immutable);
    let ghost g = ran;
    let out = ran.into_outcome();
    let elapsed = db::elapsed_ms(&start);
    let ok = out.is_ok();
    let j = reply::query_reply(out, elapsed, payload.limit, payload.offset, true);
    let res = if ok {
        (STATUS_OK, j)
    } else {
        (STATUS_BAD_REQUEST, j)
    };
    assert(reply::is_query_reply(res.1@, g.outcome(), elapsed as nat, payload.limit as nat, payload.offset as nat, true));
    res
}

/// `GET /api/running`: `::running`.
pub fn list_running(st: &DbState) -> (res: ApiReply)
    ensures
        is_sys_answer(res, "::running"@, false),
{
    rows_call(st, "::running", false)
}

/// `DELETE /api/running/:id`: `::kill $id` with the parameter `id` (as a
/// signed 64-bit integer).
pub fn kill_running(st: &DbState, id: u64) -> (res: ApiReply)
    ensures
        exists|ran: Ran| {
            &&& ran.script() == "::kill $id"@
            &&& db::is_one_param(ran.params()@, "id"@, db::i64_value(id as i64))
            &&& ran.mutable()
            &&& !ran.in_transaction()
            &&& #[trigger] is_rows_answer(res, ran.outcome())
        },
{
    let params = db::one_param("id", db::json_int(id as i64));
    let ran = db::run(&st.db, "::kill $id", &params, true);
    let ghost g = ran;
    let res = rows_answer(ran.into_outcome());
    assert(is_rows_answer(res, g.outcome()));
    res
}

/// `GET /api/fixed-rules`: `::fixed_rules`.
pub fn list_fixed_rules(st: &DbState) -> (res: ApiReply)
    ensures
        is_sys_answer(res, "::fixed_rules"@, false),
{
    rows_call(st, "::fixed_rules", false)
}

/// `POST /api/compact`: `::compact`.
pub fn compact_db(st: &DbState) -> (res: ApiReply)
    ensures
        is_sys_done_answer(res, "::compact"@),
{
    done_call(st, "::compact")
}

/// `POST /api/remove-relations`: `::remove <r1>, <r2>, ...`.
pub fn remove_relations(st: &DbState, payload: &RemoveRelationsPayload) -> (res: ApiReply)
    ensures
        is_sys_done_answer(res, "::remove "@ + joined(views(payload.relations@), ", "@)),
{
    let s = script::remove_script(payload.relations.as_slice());
    done_call(st, s.as_str())
}

/// `POST /api/rename-relations`: `::rename <from> -> <to>, ...`.
pub fn rename_relations(st: &DbState, payload: &RenameRelationsPayload) -> (res: ApiReply)
    ensures
        exists|pairs: Seq<(String, String)>| {
            &&& pairs.len() == payload.renames@.len()
            &&& (forall|i: int| 0 <= i < pairs.len() ==> (#[trigger] pairs[i]).0@ == payload.renames@[i].from@ && pairs[i].1@ == payload.renames@[i].to@)
            &&& #[trigger] is_sys_done_answer(res, script::rename_text(pairs))
        },
{
    let pairs = rename_pairs(&payload.renames);
    let s = script::rename_script(pairs.as_slice());
    let res = done_call(st, s.as_str());
    assert(is_sys_done_answer(res, script::rename_text(pairs@)));
    res
}

/// `POST /api/access-level`: `::access_level <level> <r1>, <r2>, ...`.
pub fn set_access_level(st: &DbState, payload: &AccessLevelPayload) -> (res: ApiReply)
    ensures
        is_sys_done_answer(res, "::access_level "@ + payload.level@ + " "@ + joined(views(payload.relations@), ", "@)),
{
    let s = script::access_level_script(payload.level.as_str(), payload.relations.as_slice());
    done_call(st, s.as_str())
}

/// The scripts of a batch's queries.
pub open spec fn batch_scripts(queries: Seq<BatchQuery>) -> Seq<Seq<char>> {
    queries.map_values(|q: BatchQuery| q.script@)
}

/// The parameters of a batch's queries.
pub open spec fn batch_params(queries: Seq<BatchQuery>) -> Seq<BTreeMap<String, serde_json::Value>> {
    queries.map_values(|q: BatchQuery| q.params)
}

/// `POST /api/batch`: runs the queries in order. Without `transactional`
/// each query gets its own result (its rows, or its error) and the answer is
/// 200. With `transactional` all run in one write transaction: the first
/// failure aborts it and the answer is 400 with that error; a failed commit
/// is answered the same way.
pub fn batch_query(st: &DbState, payload: &BatchPayload) -> (res: ApiReply)
    ensures
        exists|runs: Seq<Ran>, commit: Option<Result<(), String>>, tx: Option<engine::Tx>, e: nat|
            #[trigger] reply::is_batch_walk(
                res.1@,
                batch_scripts(payload.queries@),
                batch_params(payload.queries@),
                payload.transactional,
                runs,
                commit,
                tx,
                e,
                false,
            ),
        res.0 == (if is_failure(res.1@) { STATUS_BAD_REQUEST } else { STATUS_OK }),
{
    let start = db::clock_start();
    let queries = &payload.queries;
    let transactional = payload.transactional;
    let mut outcomes: Vec<Result<DbRows, String>> = Vec::new();
    let ghost mut runs: Seq<Ran> = Seq::empty();
    let mut commit: Option<Result<(), String>> = None;
    let ghost mut gtx: Option<engine::Tx> = None;
    let n = queries.len();
    let mut i: usize = 0;
    let mut stopped = false;
    if transactional {
        let mut tx = engine::begin(&st.db);
        while i < n && !stopped
            invariant
                transactional,
                n == queries@.len(),
                i <= n,
                runs.len() == i,
                outcomes@ == reply::outcomes_of(runs),
                forall|k: int| 0 <= k < i ==> {
                    &&& (#[trigger] runs[k]).script() == batch_scripts(queries@)[k]
                    &&& runs[k].params() == batch_params(queries@)[k]
                    &&& runs[k].mutable()
                    &&& runs[k].in_transaction()
                },
                reply::ok_before(outcomes@, i - 1),
                stopped == !reply::ok_before(outcomes@, i as int),
                stopped ==> i > 0 && outcomes@[i - 1] is Err,
                tx.end() == (if stopped { engine::TxEnd::Aborted } else { engine::TxEnd::Open }),
                tx.committed() is None,
            decreases n - i,
        {
            let ran = db::run_in(&tx, queries[i].script.as_str(), &queries[i].params);
            let ghost g = ran;
            let out = ran.into_outcome();
            let ghost before = outcomes@;
            if out.is_err() {
                engine::abort(&mut tx);
                stopped = true;
            }
            outcomes.push(out);
            proof {
                assert(reply::outcomes_of(runs.push(g)) =~= reply::outcomes_of(runs).push(g.outcome()));
                runs = runs.push(g);
                assert(reply::ok_before(before, i as int));
                assert forall|m: int| 0 <= m < i implies (#[trigger] outcomes@[m]) is Ok by {
                    assert(before[m] is Ok);
                }
                if !stopped {
                    assert forall|m: int| 0 <= m < i + 1 implies (#[trigger] outcomes@[m]) is Ok by {
                        if m < i {
                            assert(before[m] is Ok);
                        }
                    }
                } else {
                    assert(outcomes@[i as int] is Err);
                }
            }
            i = i + 1;
        }
        if !stopped {
            commit = Some(engine::commit(&mut tx));
        }
        proof { gtx = Some(tx); }
    } else {
        while i < n
            invariant
                !transactional,
                n == queries@.len(),
                i <= n,
                runs.len() == i,
                outcomes@ == reply::outcomes_of(runs),
                forall|k: int| 0 <= k < i ==> {
                    &&& (#[trigger] runs[k]).script() == batch_scripts(queries@)[k]
                    &&& runs[k].params() == batch_params(queries@)[k]
                    &&& runs[k].mutable()
                    &&& !runs[k].in_transaction()
                },
            decreases n - i,
        {
            let ran = db::run(&st.db, queries[i].script.as_str(), &queries[i].params, true);
            let ghost g = ran;
            outcomes.push(ran.into_outcome());
            proof {
                assert(reply::outcomes_of(runs.push(g)) =~= reply::outcomes_of(runs).push(g.outcome()));
                runs = runs.push(g);
            }
            i = i + 1;
        }
    }
    let elapsed = db::elapsed_ms(&start);
    let ghost gc = commit;
    let j = reply::batch_answer(outcomes, commit, transactional, elapsed, false);
    assert(reply::is_batch_walk(j@, batch_scripts(payload.queries@), batch_params(payload.queries@), transactional, runs, gc, gtx, elapsed as nat, false));
    let res = if failed(&j) {
        (STATUS_BAD_REQUEST, j)
    } else {
        (STATUS_OK, j)
    };
    assert(reply::is_batch_walk(res.1@, batch_scripts(payload.queries@), batch_params(payload.queries@), transactional, runs, gc, gtx, elapsed as nat, false));
    res
}

/// `POST /api/relations/:name/indices`: `::index create <name>:<index> { <columns> }`.
pub fn create_index(st: &DbState, name: &str, payload: &CreateIndexPayload) -> (res: ApiReply)
    ensures
        is_sys_done_answer(res, "::index create "@ + name@ + ":"@ + payload.index_name@ + " { "@ + joined(views(payload.columns@), ", "@) + " }"@),
{
    let s = script::create_index_script(name, payload.index_name.as_str(), payload.columns.as_slice());
    done_call(st, s.as_str())
}

/// `DELETE /api/relations/:name/indices/:index_name`: `::index drop <name>:<index>`.
pub fn drop_index(st: &DbState, name: &str, index_name: &str) -> (res: ApiReply)
    ensures
        is_sys_done_answer(res, "::index drop "@ + name@ + ":"@ + index_name@),
{
    let s = script::drop_index_script(name, index_name);
    done_call(st, s.as_str())
}

/// The (from, to) pairs of a list of renames.
pub fn rename_pairs(renames: &Vec<RenameEntry>) -> (res: Vec<(String, String)>)
    ensures
        res@.len() == renames@.len(),
        forall|i: int| 0 <= i < renames@.len() ==> (#[trigger] res@[i]).0@ == renames@[i].from@ && res@[i].1@ == renames@[i].to@,
{
    let mut out: Vec<(String, String)> = Vec::new();
    let mut i: usize = 0;
    while i < renames.len()
        invariant
            i <= renames@.len(),
            out@.len() == i,
            forall|k: int| 0 <= k < i ==> (#[trigger] out@[k]).0@ == renames@[k].from@ && out@[k].1@ == renames@[k].to@,
        decreases renames@.len() - i,
    {
        out.push((renames[i].from.clone(), renames[i].to.clone()));
        i = i + 1;
    }
    out
}

/// The endpoints that the server offers: method, path, description, and the
/// example body that the entry shows, if any.
pub open spec fn endpoint_table() -> Seq<(Seq<char>, Seq<char>, Seq<char>, Option<Jv>)> {
    seq![
        ("GET"@, "/api/health"@, "Server health status and database metadata"@, None),
        ("GET"@, "/api/endpoints"@, "List all available API endpoints (this endpoint)"@, None),
        ("GET"@, "/api/schema"@, "Full database schema with all relations, columns, indices, and triggers"@, None),
        ("GET"@, "/api/relations"@, "List all stored relations"@, None),
        ("GET"@, "/api/relations/:name/columns"@, "List columns for a relation"@, None),
        ("GET"@, "/api/relations/:name/indices"@, "List indices for a relation"@, None),
        ("GET"@, "/api/relations/:name/triggers"@, "Show triggers for a relation"@, None),
        ("POST"@, "/api/relations/:name/describe"@, "Get or set description for a relation"@, Some(Jv::Obj(seq![("description"@, Jv::Str("optional string"@))]))),
        ("POST"@, "/api/relations/:name/indices"@, "Create an index on a relation"@, Some(Jv::Obj(seq![("index_name"@, Jv::Str("string"@)), ("columns"@, Jv::Arr(seq![Jv::Str("string"@)]))]))),
        ("DELETE"@, "/api/relations/:name/indices/:index_name"@, "Drop an index from a relation"@, None),
        ("POST"@, "/api/query"@, "Execute a CozoScript query with enhanced response (timing, pagination)"@, Some(Jv::Obj(seq![("script"@, Jv::Str("string"@)), ("params"@, Jv::Obj(Seq::empty())), ("immutable"@, Jv::Bool(false)), ("limit"@, Jv::UInt(0)), ("offset"@, Jv::UInt(0))]))),
        ("POST"@, "/api/explain"@, "Explain a query plan without executing"@, Some(Jv::Obj(seq![("script"@, Jv::Str("string"@))]))),
        ("POST"@, "/api/validate"@, "Validate a CozoScript query without executing"@, Some(Jv::Obj(seq![("script"@, Jv::Str("string"@))]))),
        ("POST"@, "/api/batch"@, "Execute multiple queries in sequence, optionally in a transaction"@, Some(Jv::Obj(seq![("queries"@, Jv::Arr(seq![Jv::Obj(seq![("script"@, Jv::Str("string"@)), ("params"@, Jv::Obj(Seq::empty()))])])), ("transactional"@, Jv::Bool(false))]))),
        ("GET"@, "/api/running"@, "List currently running queries"@, None),
        ("DELETE"@, "/api/running/:id"@, "Kill a running query by process ID"@, None),
        ("GET"@, "/api/fixed-rules"@, "List all available fixed rules (built-in algorithms)"@, None),
        ("POST"@, "/api/compact"@, "Compact the database storage"@, None),
        ("POST"@, "/api/remove-relations"@, "Remove one or more stored relations"@, Some(Jv::Obj(seq![("relations"@, Jv::Arr(seq![Jv::Str("string"@)]))]))),
        ("POST"@, "/api/rename-relations"@, "Rename stored relations"@, Some(Jv::Obj(seq![("renames"@, Jv::Arr(seq![Jv::Obj(seq![("from"@, Jv::Str("string"@)), ("to"@, Jv::Str("string"@))])]))]))),
        ("POST"@, "/api/access-level"@, "Set access level for relations"@, Some(Jv::Obj(seq![("level"@, Jv::Str("normal|protected|read_only|hidden"@)), ("relations"@, Jv::Arr(seq![Jv::Str("string"@)]))]))),
        ("GET"@, "/export/:relations"@, "Export relations (comma-separated names)"@, None),
        ("PUT"@, "/import"@, "Import relations"@, None),
        ("POST"@, "/backup"@, "Create database backup"@, Some(Jv::Obj(seq![("path"@, Jv::Str("string"@))]))),
        ("POST"@, "/import-from-backup"@, "Import specific relations from a backup"@, Some(Jv::Obj(seq![("path"@, Jv::Str("string"@)), ("relations"@, Jv::Arr(seq![Jv::Str("string"@)]))]))),
        ("POST"@, "/text-query"@, "Execute CozoScript query (legacy endpoint)"@, Some(Jv::Obj(seq![("script"@, Jv::Str("string"@)), ("params"@, Jv::Obj(Seq::empty())), ("immutable"@, Jv::Bool(false))]))),
    ]
}

/// `j` describes the endpoint `e`: its method, path and description, and its
/// example body when `e` has one.
pub open spec fn is_endpoint(j: Jv, e: (Seq<char>, Seq<char>, Seq<char>, Option<Jv>)) -> bool {
    let m = obj_of(j);
    &&& j is Obj
    &&& m.dom() == if e.3 is Some {
        set!["method"@, "path"@, "description"@, "body"@]
    } else {
        set!["method"@, "path"@, "description"@]
    }
    &&& m["method"@] == Jv::Str(e.0)
    &&& m["path"@] == Jv::Str(e.1)
    &&& m["description"@] == Jv::Str(e.2)
    &&& e.3 matches Some(b) ==> m["body"@] == b
}

proof fn lemma_endpoint_keys()
    ensures
        "method"@ == seq!['m', 'e', 't', 'h', 'o', 'd'],
        "path"@ == seq!['p', 'a', 't', 'h'],
        "description"@ == seq!['d', 'e', 's', 'c', 'r', 'i', 'p', 't', 'i', 'o', 'n'],
        "body"@ == seq!['b', 'o', 'd', 'y'],
        "ok"@ == seq!['o', 'k'],
        "endpoints"@ == seq!['e', 'n', 'd', 'p', 'o', 'i', 'n', 't', 's'],
{
    reveal_strlit("method");
    reveal_strlit("path");
    reveal_strlit("description");
    reveal_strlit("body");
    reveal_strlit("ok");
    reveal_strlit("endpoints");
}

fn endpoint(method: &str, path: &str, description: &str, body: Option<Json>) -> (res: Json)
    ensures
        is_endpoint(res@, (method@, path@, description@, match body { Some(b) => Some(b@), None => None })),
{
    proof { lemma_endpoint_keys(); }
    let has_body = body.is_some();
    let mut e = Json::empty_obj();
    e.set("method", Json::text(method));
    e.set("path", Json::text(path));
    e.set("description", Json::text(description));
    match body {
        Some(b) => e.set("body", b),
        None => {},
    }
    if has_body {
        assert(obj_of(e@).dom() =~= set!["method"@, "path"@, "description"@, "body"@]);
    } else {
        assert(obj_of(e@).dom() =~= set!["method"@, "path"@, "description"@]);
    }
    e
}

/// `GET /api/endpoints`: 200 with `"ok": true` and the list of endpoints.
#[verifier::rlimit(50)]
pub fn list_endpoints() -> (res: ApiReply)
    ensures
        res.0 == STATUS_OK,
        res.1@ is Obj,
        obj_of(res.1@).dom() == set!["ok"@, "endpoints"@],
        obj_of(res.1@)["ok"@] == Jv::Bool(true),
        obj_of(res.1@)["endpoints"@] is Arr,
        obj_of(res.1@)["endpoints"@]->Arr_0.len() == endpoint_table().len(),
        forall|i: int| 0 <= i < endpoint_table().len() ==> is_endpoint(#[trigger] obj_of(res.1@)["endpoints"@]->Arr_0[i], endpoint_table()[i]),
{
    let mut eps: Vec<Json> = Vec::new();
    eps.push(endpoint("GET", "/api/health", "Server health status and database metadata", None));
    assert(eps@.len() == 1);
    eps.push(endpoint("GET", "/api/endpoints", "List all available API endpoints (this endpoint)", None));
    assert(eps@.len() == 2);
    eps.push(endpoint("GET", "/api/schema", "Full database schema with all relations, columns, indices, and triggers", None));
    assert(eps@.len() == 3);
    eps.push(endpoint("GET", "/api/relations", "List all stored relations", None));
    assert(eps@.len() == 4);
    eps.push(endpoint("GET", "/api/relations/:name/columns", "List columns for a relation", None));
    assert(eps@.len() == 5);
    eps.push(endpoint("GET", "/api/relations/:name/indices", "List indices for a relation", None));
    assert(eps@.len() == 6);
    eps.push(endpoint("GET", "/api/relations/:name/triggers", "Show triggers for a relation", None));
    assert(eps@.len() == 7);
    let mut b7 = Json::empty_obj();
    b7.set("description", Json::text("optional string"));
    assert(b7@->Obj_0 =~= seq![("description"@, Jv::Str("optional string"@))]);
    eps.push(endpoint("POST", "/api/relations/:name/describe", "Get or set description for a relation", Some(b7)));
    assert(eps@.len() == 8);
    let mut b8 = Json::empty_obj();
    b8.set("index_name", Json::text("string"));
    let mut b8_columns: Vec<Json> = Vec::new();
    b8_columns.push(Json::text("string"));
    let b8c = Json::Arr(b8_columns);
    assert(b8c@->Arr_0 =~= seq![Jv::Str("string"@)]);
    b8.set("columns", b8c);
    assert(b8@->Obj_0 =~= seq![("index_name"@, Jv::Str("string"@)), ("columns"@, Jv::Arr(seq![Jv::Str("string"@)]))]);
    eps.push(endpoint("POST", "/api/relations/:name/indices", "Create an index on a relation", Some(b8)));
    assert(eps@.len() == 9);
    eps.push(endpoint("DELETE", "/api/relations/:name/indices/:index_name", "Drop an index from a relation", None));
    assert(eps@.len() == 10);
    let mut b10 = Json::empty_obj();
    b10.set("script", Json::text("string"));
    let mut b10_params = Json::empty_obj();
    b10.set("params", b10_params);
    b10.set("immutable", Json::Bool(false));
    b10.set("limit", Json::UInt(0));
    b10.set("offset", Json::UInt(0));
    assert(b10@->Obj_0 =~= seq![("script"@, Jv::Str("string"@)), ("params"@, Jv::Obj(Seq::empty())), ("immutable"@, Jv::Bool(false)), ("limit"@, Jv::UInt(0)), ("offset"@, Jv::UInt(0))]);
    eps.push(endpoint("POST", "/api/query", "Execute a CozoScript query with enhanced response (timing, pagination)", Some(b10)));
    assert(eps@.len() == 11);
    let mut b11 = Json::empty_obj();
    b11.set("script", Json::text("string"));
    assert(b11@->Obj_0 =~= seq![("script"@, Jv::Str("string"@))]);
    eps.push(endpoint("POST", "/api/explain", "Explain a query plan without executing", Some(b11)));
    assert(eps@.len() == 12);
    let mut b12 = Json::empty_obj();
    b12.set("script", Json::text("string"));
    assert(b12@->Obj_0 =~= seq![("script"@, Jv::Str("string"@))]);
    eps.push(endpoint("POST", "/api/validate", "Validate a CozoScript query without executing", Some(b12)));
    assert(eps@.len() == 13);
    let mut b13 = Json::empty_obj();
    let mut b13_queries_o = Json::empty_obj();
    b13_queries_o.set("script", Json::text("string"));
    let mut b13_queries_params = Json::empty_obj();
    b13_queries_o.set("params", b13_queries_params);
    assert(b13_queries_o@->Obj_0 =~= seq![("script"@, Jv::Str("string"@)), ("params"@, Jv::Obj(Seq::empty()))]);
    let mut b13_queries: Vec<Json> = Vec::new();
    b13_queries.push(b13_queries_o);
    let ghost q0 = Jv::Obj(seq![("script"@, Jv::Str("string"@)), ("params"@, Jv::Obj(Seq::empty()))]);
    assert(b13_queries@[0]@->Obj_0 =~= q0->Obj_0);
    let b13q = Json::Arr(b13_queries);
    assert(b13q@->Arr_0 =~= seq![q0]);
    b13.set("queries", b13q);
    b13.set("transactional", Json::Bool(false));
    assert(b13@->Obj_0 =~= seq![("queries"@, Jv::Arr(seq![q0])), ("transactional"@, Jv::Bool(false))]);
    eps.push(endpoint("POST", "/api/batch", "Execute multiple queries in sequence, optionally in a transaction", Some(b13)));
    assert(eps@.len() == 14);
    eps.push(endpoint("GET", "/api/running", "List currently running queries", None));
    assert(eps@.len() == 15);
    eps.push(endpoint("DELETE", "/api/running/:id", "Kill a running query by process ID", None));
    assert(eps@.len() == 16);
    eps.push(endpoint("GET", "/api/fixed-rules", "List all available fixed rules (built-in algorithms)", None));
    assert(eps@.len() == 17);
    eps.push(endpoint("POST", "/api/compact", "Compact the database storage", None));
    assert(eps@.len() == 18);
    let mut b18 = Json::empty_obj();
    let mut b18_relations: Vec<Json> = Vec::new();
    b18_relations.push(Json::text("string"));
    let b18r = Json::Arr(b18_relations);
    assert(b18r@->Arr_0 =~= seq![Jv::Str("string"@)]);
    b18.set("relations", b18r);
    assert(b18@->Obj_0 =~= seq![("relations"@, Jv::Arr(seq![Jv::Str("string"@)]))]);
    eps.push(endpoint("POST", "/api/remove-relations", "Remove one or more stored relations", Some(b18)));
    assert(eps@.len() == 19);
    let mut b19 = Json::empty_obj();
    let mut b19_renames_o = Json::empty_obj();
    b19_renames_o.set("from", Json::text("string"));
    b19_renames_o.set("to", Json::text("string"));
    assert(b19_renames_o@->Obj_0 =~= seq![("from"@, Jv::Str("string"@)), ("to"@, Jv::Str("string"@))]);
    let mut b19_renames: Vec<Json> = Vec::new();
    b19_renames.push(b19_renames_o);
    let ghost r0 = Jv::Obj(seq![("from"@, Jv::Str("string"@)), ("to"@, Jv::Str("string"@))]);
    assert(b19_renames@[0]@->Obj_0 =~= r0->Obj_0);
    let b19r = Json::Arr(b19_renames);
    assert(b19r@->Arr_0 =~= seq![r0]);
    b19.set("renames", b19r);
    assert(b19@->Obj_0 =~= seq![("renames"@, Jv::Arr(seq![r0]))]);
    eps.push(endpoint("POST", "/api/rename-relations", "Rename stored relations", Some(b19)));
    assert(eps@.len() == 20);
    let mut b20 = Json::empty_obj();
    b20.set("level", Json::text("normal|protected|read_only|hidden"));
    let mut b20_relations: Vec<Json> = Vec::new();
    b20_relations.push(Json::text("string"));
    let b20r = Json::Arr(b20_relations);
    assert(b20r@->Arr_0 =~= seq![Jv::Str("string"@)]);
    b20.set("relations", b20r);
    assert(b20@->Obj_0 =~= seq![("level"@, Jv::Str("normal|protected|read_only|hidden"@)), ("relations"@, Jv::Arr(seq![Jv::Str("string"@)]))]);
    eps.push(endpoint("POST", "/api/access-level", "Set access level for relations", Some(b20)));
    assert(eps@.len() == 21);
    eps.push(endpoint("GET", "/export/:relations", "Export relations (comma-separated names)", None));
    assert(eps@.len() == 22);
    eps.push(endpoint("PUT", "/import", "Import relations", None));
    assert(eps@.len() == 23);
    let mut b23 = Json::empty_obj();
    b23.set("path", Json::text("string"));
    assert(b23@->Obj_0 =~= seq![("path"@, Jv::Str("string"@))]);
    eps.push(endpoint("POST", "/backup", "Create database backup", Some(b23)));
    assert(eps@.len() == 24);
    let mut b24 = Json::empty_obj();
    b24.set("path", Json::text("string"));
    let mut b24_relations: Vec<Json> = Vec::new();
    b24_relations.push(Json::text("string"));
    let b24r = Json::Arr(b24_relations);
    assert(b24r@->Arr_0 =~= seq![Jv::Str("string"@)]);
    b24.set("relations", b24r);
    assert(b24@->Obj_0 =~= seq![("path"@, Jv::Str("string"@)), ("relations"@, Jv::Arr(seq![Jv::Str("string"@)]))]);
    eps.push(endpoint("POST", "/import-from-backup", "Import specific relations from a backup", Some(b24)));
    assert(eps@.len() == 25);
    let mut b25 = Json::empty_obj();
    b25.set("script", Json::text("string"));
    let mut b25_params = Json::empty_obj();
    b25.set("params", b25_params);
    b25.set("immutable", Json::Bool(false));
    assert(b25@->Obj_0 =~= seq![("script"@, Jv::Str("string"@)), ("params"@, Jv::Obj(Seq::empty())), ("immutable"@, Jv::Bool(false))]);
    eps.push(endpoint("POST", "/text-query", "Execute CozoScript query (legacy endpoint)", Some(b25)));
    assert(eps@.len() == 26);
    let ghost ev = eps@;
    proof { lemma_endpoint_keys(); }
    assert forall|i: int| 0 <= i < endpoint_table().len() implies is_endpoint((#[trigger] ev[i])@, endpoint_table()[i]) by {}
    let arr = Json::Arr(eps);
    let mut res = Json::empty_obj();
    res.set("ok", Json::Bool(true));
    res.set("endpoints", arr);
    assert(obj_of(res@).dom() =~= set!["ok"@, "endpoints"@]);
    (STATUS_OK, res)
}

} // verus!
