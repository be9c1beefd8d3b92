//! The embedded backend: the database runs in this process and every request
//! is a direct call into the engine.

use std::collections::BTreeMap;
use vstd::prelude::*;
use crate::json::{Json, Jv, obj_of, is_obj, field};
use crate::db::{self, DbRows, Ran, Exported};
use crate::engine::{self, Done};
use crate::reply::{
    self, error_map, is_error, is_rows_json, timed_error_map, batch_map, validate_map,
    health_map, count_of, outcome_error,
};
use crate::script;
use crate::text::{views, joined};

verus! {

/// What a backend answers: a JSON reply, or (for the schema listing) the error.
pub type BackendResult = Result<Json, String>;

/// A backend holding an open database in this process.
pub struct EmbeddedBackend {
    db: engine::Database,
    engine: String,
}

/// The reply of the read-only system command `script`: it was run with no
/// parameters, and the reply is its result with `"ok": true`, or its error.
pub open spec fn is_sys_reply(res: BackendResult, script: Seq<char>) -> bool {
    res matches Ok(j) && exists|ran: Ran| ran.is_plain_call(script, false) && #[trigger] reply::is_rows_reply(j@, ran.outcome())
}

/// The reply of the system command `script` run as one that may change the
/// database: its result with `"ok": true`, or its error.
pub open spec fn is_sys_mut_reply(res: BackendResult, script: Seq<char>) -> bool {
    res matches Ok(j) && exists|ran: Ran| ran.is_plain_call(script, true) && #[trigger] reply::is_rows_reply(j@, ran.outcome())
}

/// The reply of the system command `script`, run as one that may change the
/// database, whose result is not shown: `{"ok": true}`, or its error.
pub open spec fn is_done_reply(res: BackendResult, script: Seq<char>) -> bool {
    res matches Ok(j) && exists|ran: Ran| ran.is_plain_call(script, true) && #[trigger] reply::is_done_reply_of(j@, ran.outcome())
}

/// The reply of the request `chore` handed to the database: `{"ok": true}` or
/// the engine's error.
pub open spec fn is_chore_reply(res: BackendResult, chore: engine::Chore) -> bool {
    res matches Ok(j) && exists|d: Done| d.chore() == chore && #[trigger] reply::is_chore_reply_of(j@, d.outcome())
}

/// The names of a list of fields, in order.
pub open spec fn field_names(fs: Seq<(Seq<char>, serde_json::Value)>) -> Seq<Seq<char>> {
    fs.map_values(|p: (Seq<char>, serde_json::Value)| p.0)
}

/// Entry `k` of the fields `fs` is the first whose rows cannot be read.
pub open spec fn first_bad_rows(fs: Seq<(Seq<char>, serde_json::Value)>, k: int) -> bool {
    &&& 0 <= k < fs.len()
    &&& db::rows_json_error(fs[k].1) is Some
    &&& forall|i: int| 0 <= i < k ==> db::rows_json_error(#[trigger] fs[i].1) is None
}

/// The scripts of a batch's queries.
pub open spec fn query_scripts(queries: Seq<(String, BTreeMap<String, serde_json::Value>)>) -> Seq<Seq<char>> {
    queries.map_values(|q: (String, BTreeMap<String, serde_json::Value>)| q.0@)
}

/// The parameters of a batch's queries.
pub open spec fn query_params(queries: Seq<(String, BTreeMap<String, serde_json::Value>)>) -> Seq<BTreeMap<String, serde_json::Value>> {
    queries.map_values(|q: (String, BTreeMap<String, serde_json::Value>)| q.1)
}

/// The text `Bad data for '<name>': <error>`.
pub open spec fn bad_data_message(name: Seq<char>, error: Seq<char>) -> Seq<char> {
    "Bad data for '"@ + name + "': "@ + error
}

/// What the embedded backend answers when asked for the server's endpoints.
pub open spec fn endpoints_note() -> Seq<char> {
    "Endpoints are only available in remote mode (--remote)"@
}

impl EmbeddedBackend {
    /// The engine name that the backend was opened with.
    pub closed spec fn engine_name(&self) -> Seq<char> {
        self.engine@
    }

    /// The engine name, path and configuration the database was opened with.
    pub closed spec fn opened(&self) -> (Seq<char>, Seq<char>, Seq<char>) {
        self.db.opened()
    }

    /// Opens the database `engine` at `path` with `config`; the engine's error as
    /// text.
    pub fn new(engine: &str, path: &str, config: &str) -> (res: Result<Self, String>)
        ensures
            res matches Ok(b) ==> b.engine_name() == engine@ && b.opened() == (engine@, path@, config@),
            engine@ != "mem"@ && engine@ != "sqlite"@ ==> (res matches Err(m) && m@ == db::unsupported_engine(engine@)),
    {
        match engine::open(engine, path, config) {
            Ok(db) => Ok(EmbeddedBackend { db, engine: String::from_str(engine) }),
            Err(e) => Err(e),
        }
    }

    /// A backend over a database that is already open (such as the one a server
    /// holds), under the name of its engine.
    pub fn with_db(db: engine::Database, engine: &str) -> (res: Self)
        ensures
            res.engine_name() == engine@,
            res.opened() == db.opened(),
    {
        EmbeddedBackend { db, engine: String::from_str(engine) }
    }

    fn run(&self, script: &str, mutable: bool) -> (res: Ran)
        ensures
            res.is_plain_call(script@, mutable),
    {
        db::run_plain(&self.db, script, mutable)
    }

    /// Runs a read-only system command and replies with its result.
    fn run_sys(&self, script: &str) -> (res: BackendResult)
        ensures
            is_sys_reply(res, script@),
    {
        let ran = self.run(script, false);
        let ghost g = ran;
        let res = reply::rows_reply(ran.into_outcome());
        assert(reply::is_rows_reply(res@, g.outcome()));
        Ok(res)
    }

    /// Runs a system command that changes the database and replies `{"ok": true}`
    /// or the error.
    fn run_sys_mut(&self, script: &str) -> (res: BackendResult)
        ensures
            is_done_reply(res, script@),
    {
        let ran = self.run(script, true);
        let ghost g = ran;
        let out = match ran.into_outcome() {
            Ok(_) => Ok(()),
            Err(e) => Err(e),
        };
        let res = reply::done_reply(out);
        assert(reply::is_done_reply_of(res@, g.outcome()));
        Ok(res)
    }

    /// Runs `script` with `params` (read-only when `immutable`) and replies with
    /// the page of rows that `limit` and `offset` select, the row counts, the
    /// offset and limit when set, and the time taken; or the error with the time.
    pub fn query(
        &self,
        script: &str,
        params: &BTreeMap<String, serde_json::Value>,
        immutable: bool,
        limit: usize,
        offset: usize,
    ) -> (res: BackendResult)
        ensures
            res matches Ok(j) && exists|ran: Ran, e: nat| {
                &&& ran.script() == script@
                &&& ran.params() == *params
                &&& ran.mutable() == !immutable
                &&& !ran.in_transaction()
                &&& #[trigger] reply::is_query_reply(j@, ran.outcome(), e, limit as nat, offset as nat, true)
            },
    {
        let start = db::clock_start();
        let ran = db::run(&self.db, script, params, !immutable);
        let ghost g = ran;
        let out = ran.into_outcome();
        let elapsed = db::elapsed_ms(&start);
        let res = reply::query_reply(out, elapsed, limit, offset, true);
        assert(reply::is_query_reply(res@, g.outcome(), elapsed as nat, limit as nat, offset as nat, true));
        Ok(res)
    }

    /// The plan of `script`, run as `::explain { <script> }`.
    pub fn explain(&self, script: &str) -> (res: BackendResult)
        ensures
            is_sys_reply(res, "::explain { "@ + script@ + " }"@),
    {
        let s = script::explain_script(script);
        self.run_sys(s.as_str())
    }

    /// Whether `script` is accepted: `::explain { <script> }` is run and the reply
    /// says `"valid": true`, or `"valid": false` with the engine's error.
    pub fn validate(&self, script: &str) -> (res: BackendResult)
        ensures
            res matches Ok(j) && exists|ran: Ran| {
                &&& ran.is_plain_call("::explain { "@ + script@ + " }"@, false)
                &&& #[trigger] is_obj(j@, validate_map(script@, outcome_error(ran.outcome())))
            },
    {
        let s = script::explain_script(script);
        let ran = self.run(s.as_str(), false);
        let ghost g = ran;
        let out = ran.into_outcome();
        let res = reply::validate_reply(script, out);
        assert(is_obj(res@, validate_map(script@, outcome_error(g.outcome()))));
        Ok(res)
    }

    /// Runs the queries in order. Without `transactional`, each query gets its
    /// own result (its rows with `"ok": true`, or its error) and the batch
    /// succeeds. With `transactional`, all run in one write transaction: the first
    /// failure aborts it and the batch fails with that error; otherwise the
    /// transaction is committed and its failure, if any, fails the batch.
    pub fn batch(&self, queries: &[(String, BTreeMap<String, serde_json::Value>)], transactional: bool) -> (res: BackendResult)
        ensures
            res matches Ok(j) && exists|runs: Seq<Ran>, commit: Option<Result<(), String>>, tx: Option<engine::Tx>, e: nat|
                #[trigger] reply::is_batch_walk(
                    j@,
                    query_scripts(queries@),
                    query_params(queries@),
                    transactional,
                    runs,
                    commit,
                    tx,
                    e,
                    true,
                ),
    {
        let start = db::clock_start();
        let mut outcomes: Vec<Result<DbRows, String>> = Vec::new();
        let ghost mut runs: Seq<Ran> = Seq::empty();
        let mut commit: Option<Result<(), String>> = None;
        let ghost mut gtx: Option<engine::Tx> = None;
        let n = queries.len();
        let mut i: usize = 0;
        let mut stopped = false;
        if transactional {
            let mut tx = engine::begin(&self.db);
            while i < n && !stopped
                invariant
                    transactional,
                    n == queries@.len(),
                    i <= n,
                    runs.len() == i,
                    outcomes@ == reply::outcomes_of(runs),
                    forall|k: int| 0 <= k < i ==> {
                        &&& (#[trigger] runs[k]).script() == query_scripts(queries@)[k]
                        &&& runs[k].params() == query_params(queries@)[k]
                        &&& runs[k].mutable()
                        &&& runs[k].in_transaction()
                    },
                    reply::ok_before(outcomes@, i - 1),
                    stopped == !reply::ok_before(outcomes@, i as int),
                    stopped ==> i > 0 && outcomes@[i - 1] is Err,
                    tx.end() == (if stopped { engine::TxEnd::Aborted } else { engine::TxEnd::Open }),
                tx.committed() is None,
                decreases n - i,
            {
                let ran = db::run_in(&tx, queries[i].0.as_str(), &queries[i].1);
                let ghost g = ran;
                let out = ran.into_outcome();
                let ghost before = outcomes@;
                if out.is_err() {
                    engine::abort(&mut tx);
                    stopped = true;
                }
                outcomes.push(out);
                proof {
                    assert(reply::outcomes_of(runs.push(g)) =~= reply::outcomes_of(runs).push(g.outcome()));
                    runs = runs.push(g);
                    assert(reply::ok_before(before, i as int));
                    assert forall|m: int| 0 <= m < i implies (#[trigger] outcomes@[m]) is Ok by {
                        assert(before[m] is Ok);
                    }
                    if !stopped {
                        assert forall|m: int| 0 <= m < i + 1 implies (#[trigger] outcomes@[m]) is Ok by {
                            if m < i {
                                assert(before[m] is Ok);
                            }
                        }
                    } else {
                        assert(outcomes@[i as int] is Err);
                    }
                }
                i = i + 1;
            }
            if !stopped {
                commit = Some(engine::commit(&mut tx));
            }
            proof { gtx = Some(tx); }
        } else {
            while i < n
                invariant
                    !transactional,
                    n == queries@.len(),
                    i <= n,
                    runs.len() == i,
                    outcomes@ == reply::outcomes_of(runs),
                    forall|k: int| 0 <= k < i ==> {
                        &&& (#[trigger] runs[k]).script() == query_scripts(queries@)[k]
                        &&& runs[k].params() == query_params(queries@)[k]
                        &&& runs[k].mutable()
                        &&& !runs[k].in_transaction()
                    },
                decreases n - i,
            {
                let ran = db::run(&self.db, queries[i].0.as_str(), &queries[i].1, true);
                let ghost g = ran;
                outcomes.push(ran.into_outcome());
                proof {
                    assert(reply::outcomes_of(runs.push(g)) =~= reply::outcomes_of(runs).push(g.outcome()));
                    runs = runs.push(g);
                }
                i = i + 1;
            }
        }
        let elapsed = db::elapsed_ms(&start);
        let ghost go = outcomes@;
        let ghost gc = commit;
        let j = reply::batch_answer(outcomes, commit, transactional, elapsed, true);
        assert(reply::is_batch_walk(j@, query_scripts(queries@), query_params(queries@), transactional, runs, gc, gtx, elapsed as nat, true));
        Ok(j)
    }

    /// The health reply: `"status": "healthy"`, `"mode": "embedded"`, the engine
    /// name, and the numbers of relations, running queries and fixed rules (0 for
    /// a listing that failed).
    pub fn health(&self) -> (res: BackendResult)
        ensures
            res matches Ok(j) && exists|a: Ran, b: Ran, c: Ran| {
                &&& a.is_plain_call("::relations"@, false)
                &&& b.is_plain_call("::running"@, false)
                &&& c.is_plain_call("::fixed_rules"@, false)
                &&& #[trigger] is_obj(
                    j@,
                    health_map(self.engine_name(), Some("embedded"@), count_of(a.outcome()), count_of(b.outcome()), count_of(c.outcome())),
                )
            },
    {
        let ra = self.run("::relations", false);
        let rb = self.run("::running", false);
        let rc = self.run("::fixed_rules", false);
        let ghost (ga, gb, gc) = (ra, rb, rc);
        let relations = ra.into_outcome();
        let running = rb.into_outcome();
        let fixed_rules = rc.into_outcome();
        let res = reply::health_reply(self.engine.as_str(), Some("embedded"), &relations, &running, &fixed_rules);
        assert(is_obj(res@, health_map(self.engine_name(), Some("embedded"@), count_of(ga.outcome()), count_of(gb.outcome()), count_of(gc.outcome()))));
        Ok(res)
    }

    /// `::relations`.
    pub fn list_relations(&self) -> (res: BackendResult)
        ensures
            is_sys_reply(res, "::relations"@),
    {
        self.run_sys("::relations")
    }

    /// `::columns <relation>`.
    pub fn list_columns(&self, relation: &str) -> (res: BackendResult)
        ensures
            is_sys_reply(res, "::columns "@ + relation@),
    {
        let s = script::columns_script(relation);
        self.run_sys(s.as_str())
    }

    /// `::indices <relation>`.
    pub fn list_indices(&self, relation: &str) -> (res: BackendResult)
        ensures
            is_sys_reply(res, "::indices "@ + relation@),
    {
        let s = script::indices_script(relation);
        self.run_sys(s.as_str())
    }

    /// `::show_triggers <relation>`.
    pub fn show_triggers(&self, relation: &str) -> (res: BackendResult)
        ensures
            is_sys_reply(res, "::show_triggers "@ + relation@),
    {
        let s = script::triggers_script(relation);
        self.run_sys(s.as_str())
    }

    /// `::describe <relation> "<description>"`, run as a command that may change
    /// the database; replies with its result or the error.
    pub fn describe_relation(&self, relation: &str, description: Option<&str>) -> (res: BackendResult)
        ensures
            is_sys_mut_reply(res, script::describe_text(relation@, description, '"', true)),
    {
        let s = script::describe_script(relation, description);
        let ran = self.run(s.as_str(), true);
        let ghost g = ran;
        let res = reply::rows_reply(ran.into_outcome());
        assert(reply::is_rows_reply(res@, g.outcome()));
        Ok(res)
    }

    /// The schema of every relation: for each row of `::relations`, its
    /// `::columns` (whose failure fails the whole listing), its `::indices` and
    /// `::show_triggers` when they can be listed, and the other columns of its
    /// row. The first failure of `::relations` or `::columns` is the error.
    pub fn full_schema(&self) -> (res: BackendResult)
        ensures
            res matches Ok(j) && is_schema_listing(j@),
    {
        schema_listing(&self.db)
    }

    /// `::running`.
    pub fn list_running(&self) -> (res: BackendResult)
        ensures
            is_sys_reply(res, "::running"@),
    {
        self.run_sys("::running")
    }

    /// `::kill $id` with the parameter `id` (as a signed 64-bit integer), run as
    /// a command that may change the database.
    pub fn kill_running(&self, id: u64) -> (res: BackendResult)
        ensures
            res matches Ok(j) && exists|ran: Ran| {
                &&& ran.script() == "::kill $id"@
                &&& db::is_one_param(ran.params()@, "id"@, db::i64_value(id as i64))
                &&& ran.mutable()
                &&& !ran.in_transaction()
                &&& #[trigger] reply::is_rows_reply(j@, ran.outcome())
            },
    {
        let params = db::one_param("id", db::json_int(id as i64));
        let ran = db::run(&self.db, "::kill $id", &params, true);
        let ghost g = ran;
        let res = reply::rows_reply(ran.into_outcome());
        assert(reply::is_rows_reply(res@, g.outcome()));
        Ok(res)
    }

    /// `::fixed_rules`.
    pub fn list_fixed_rules(&self) -> (res: BackendResult)
        ensures
            is_sys_reply(res, "::fixed_rules"@),
    {
        self.run_sys("::fixed_rules")
    }

    /// `::compact`.
    pub fn compact(&self) -> (res: BackendResult)
        ensures
            is_done_reply(res, "::compact"@),
    {
        self.run_sys_mut("::compact")
    }

    /// `::remove <r1>, <r2>, ...`.
    pub fn remove_relations(&self, relations: &[String]) -> (res: BackendResult)
        ensures
            is_done_reply(res, "::remove "@ + joined(views(relations@), ", "@)),
    {
        let s = script::remove_script(relations);
        self.run_sys_mut(s.as_str())
    }

    /// `::rename <from> -> <to>, ...`.
    pub fn rename_relations(&self, renames: &[(String, String)]) -> (res: BackendResult)
        ensures
            is_done_reply(res, script::rename_text(renames@)),
    {
        let s = script::rename_script(renames);
        self.run_sys_mut(s.as_str())
    }

    /// `::access_level <level> <r1>, <r2>, ...`.
    pub fn set_access_level(&self, level: &str, relations: &[String]) -> (res: BackendResult)
        ensures
            is_done_reply(res, "::access_level "@ + level@ + " "@ + joined(views(relations@), ", "@)),
    {
        let s = script::access_level_script(level, relations);
        self.run_sys_mut(s.as_str())
    }

    /// `::index create <relation>:<index> { <columns> }`.
    pub fn create_index(&self, relation: &str, index_name: &str, columns: &[String]) -> (res: BackendResult)
        ensures
            is_done_reply(res, "::index create "@ + relation@ + ":"@ + index_name@ + " { "@ + joined(views(columns@), ", "@) + " }"@),
    {
        let s = script::create_index_script(relation, index_name, columns);
        self.run_sys_mut(s.as_str())
    }

    /// `::index drop <relation>:<index>`.
    pub fn drop_index(&self, relation: &str, index_name: &str) -> (res: BackendResult)
        ensures
            is_done_reply(res, "::index drop "@ + relation@ + ":"@ + index_name@),
    {
        let s = script::drop_index_script(relation, index_name);
        self.run_sys_mut(s.as_str())
    }

    /// The named relations' rows: `{"ok": true, "data": {<name>: <rows>, ...}}`
    /// with one entry per requested name, or the error.
    pub fn export_relations(&self, relations: &[String]) -> (res: BackendResult)
        ensures
            res matches Ok(j) && exists|x: Exported| {
                &&& x.requested() == views(relations@)
                &&& (x.outcome() matches Ok(ps) ==> reply::pair_names(ps@) == db::text_set(relations@))
                &&& #[trigger] reply::is_export_reply(j@, x.outcome())
            },
    {
        let x = db::export(&self.db, relations);
        let ghost g = x;
        let res = match x.into_outcome() {
            Ok(pairs) => reply::export_reply(pairs),
            Err(e) => reply::error_reply(e.as_str()),
        };
        assert(reply::is_export_reply(res@, g.outcome()));
        Ok(res)
    }

    /// Imports the relations of `data`, an object from relation name to rows:
    /// fails with `payload must be a JSON object` when `data` is not an object,
    /// with `Bad data for '<name>': <error>` for the first entry whose rows cannot
    /// be read, or with the engine's error; otherwise replies `{"ok": true}`.
    pub fn import_relations(&self, data: &serde_json::Value) -> (res: BackendResult)
        ensures
            res matches Ok(j) && match db::object_fields_of(*data) {
                None => is_obj(j@, error_map("payload must be a JSON object"@)),
                Some(fs) => if exists|k: int| first_bad_rows(fs, k) {
                    exists|k: int| #[trigger] first_bad_rows(fs, k)
                        && is_obj(j@, error_map(bad_data_message(fs[k].0, db::rows_json_error(fs[k].1)->0)))
                } else {
                    is_chore_reply(res, engine::Chore::Import(*data))
                },
            },
    {
        match db::parse_payload(data) {
            Err(m) => Ok(reply::error_reply(m.as_str())),
            Ok(parsed) => {
                let done = engine::import_relations(&self.db, parsed);
                let ghost g = done;
                let res = reply::done_reply(done.into_outcome());
                assert(reply::is_chore_reply_of(res@, g.outcome()));
                Ok(res)
            },
        }
    }

    /// Writes a backup of the database to `path`: `{"ok": true}` or the error.
    pub fn backup(&self, path: &str) -> (res: BackendResult)
        ensures
            is_chore_reply(res, engine::Chore::Backup(path@)),
    {
        let done = engine::backup_db(&self.db, path);
        let ghost g = done;
        let res = reply::done_reply(done.into_outcome());
        assert(reply::is_chore_reply_of(res@, g.outcome()));
        Ok(res)
    }

    /// Imports the named relations from the backup at `path`: `{"ok": true}` or
    /// the error.
    pub fn import_from_backup(&self, path: &str, relations: &[String]) -> (res: BackendResult)
        ensures
            is_chore_reply(res, engine::Chore::Restore(path@, views(relations@))),
    {
        let done = engine::import_from_backup(&self.db, path, relations);
        let ghost g = done;
        let res = reply::done_reply(done.into_outcome());
        assert(reply::is_chore_reply_of(res@, g.outcome()));
        Ok(res)
    }

    /// The endpoint listing belongs to the server: the reply says so.
    pub fn list_endpoints(&self) -> (res: BackendResult)
        ensures
            res matches Ok(j) && is_obj(j@, map!["ok"@ => Jv::Bool(true), "message"@ => Jv::Str(endpoints_note())]),
    {
        let mut j = Json::empty_obj();
        j.set("ok", Json::Bool(true));
        j.set("message", Json::text("Endpoints are only available in remote mode (--remote)"));
        proof { reply::lemma_reply_keys(); }
        assert(obj_of(j@) =~= map!["ok"@ => Jv::Bool(true), "message"@ => Jv::Str(endpoints_note())]);
        Ok(j)
    }

    /// `"embedded"`.
    pub fn mode_name(&self) -> (res: &'static str)
        ensures
            res@ == "embedded"@,
    {
        "embedded"
    }
}


/// The outcome's result when it succeeded.
pub open spec fn ok_of(o: Result<DbRows, String>) -> Option<DbRows> {
    match o {
        Ok(r) => Some(r),
        Err(_) => None,
    }
}

/// `j` is the schema reply of the walk over the relations: `rel` ran
/// `::relations` (its failure is the reply); then, for each of its rows `i` in
/// order, `names[i]` is the row's relation name; as long as every earlier
/// `::columns` succeeded, `cran[i]` ran `::columns <name>` with outcome
/// `cols[i]`; when that succeeded too, `iran[i]` and `tran[i]` ran
/// `::indices <name>` and `::show_triggers <name>`, whose results (when they
/// succeeded) are `idx[i]` and `trg[i]`. The reply is [`reply::is_schema_answer`]
/// of these.
pub open spec fn is_schema_walk(
    j: Jv,
    rel: Ran,
    names: Seq<Seq<char>>,
    cols: Seq<Result<DbRows, String>>,
    idx: Seq<Option<DbRows>>,
    trg: Seq<Option<DbRows>>,
    cran: Seq<Ran>,
    iran: Seq<Ran>,
    tran: Seq<Ran>,
) -> bool {
    &&& rel.is_plain_call("::relations"@, false)
    &&& match rel.outcome() {
        Err(m) => is_obj(j, error_map(m@)),
        Ok(r) => {
            &&& names.len() == r.rows@.len()
            &&& cols.len() == r.rows@.len()
            &&& idx.len() == r.rows@.len()
            &&& trg.len() == r.rows@.len()
            &&& cran.len() == r.rows@.len()
            &&& iran.len() == r.rows@.len()
            &&& tran.len() == r.rows@.len()
            &&& forall|i: int| 0 <= i < names.len() ==> #[trigger] names[i] == reply::row_name(r.rows@[i]@)
            &&& forall|i: int| 0 <= i < cols.len() && reply::ok_before(cols, i) ==> {
                &&& (#[trigger] cran[i]).is_plain_call("::columns "@ + names[i], false)
                &&& cols[i] == cran[i].outcome()
            }
            &&& forall|i: int| 0 <= i < cols.len() && reply::ok_before(cols, i + 1) ==> {
                &&& (#[trigger] iran[i]).is_plain_call("::indices "@ + names[i], false)
                &&& idx[i] == ok_of(iran[i].outcome())
                &&& tran[i].is_plain_call("::show_triggers "@ + names[i], false)
                &&& trg[i] == ok_of(tran[i].outcome())
            }
            &&& reply::is_schema_answer(j, r, names, cols, idx, trg)
        },
    }
}

/// `j` is the schema listing of some walk of the database (see [`is_schema_walk`]).
pub open spec fn is_schema_listing(j: Jv) -> bool {
    exists|
        rel: Ran,
        names: Seq<Seq<char>>,
        cols: Seq<Result<DbRows, String>>,
        idx: Seq<Option<DbRows>>,
        trg: Seq<Option<DbRows>>,
        cran: Seq<Ran>,
        iran: Seq<Ran>,
        tran: Seq<Ran>,
    | #[trigger] is_schema_walk(j, rel, names, cols, idx, trg, cran, iran, tran)
}

/// The schema of every relation: for each row of `::relations`, its `::columns`
/// (whose failure fails the whole listing), its `::indices` and
/// `::show_triggers` when they can be listed, and the other columns of its row;
/// `{"ok": true, "schema": [...]}`. The first failure of `::relations` or
/// `::columns` is answered `{"ok": false, "message": ...}`.
pub fn schema_listing(db: &engine::Database) -> (res: BackendResult)
    ensures
        res matches Ok(j) && is_schema_listing(j@),
{
    let rel = db::run_plain(db, "::relations", false);
    let ghost grel = rel;
    let relations = match rel.into_outcome() {
        Ok(r) => r,
        Err(e) => {
            let j = reply::error_reply(e.as_str());
            assert(is_schema_walk(j@, grel, Seq::empty(), Seq::empty(), Seq::empty(), Seq::empty(), Seq::empty(), Seq::empty(), Seq::empty()));
            return Ok(j);
        },
    };
    let n = relations.rows.len();
    let mut names: Vec<String> = Vec::new();
    let mut columns: Vec<Result<DbRows, String>> = Vec::new();
    let mut indices: Vec<Option<DbRows>> = Vec::new();
    let mut triggers: Vec<Option<DbRows>> = Vec::new();
    let ghost mut cran: Seq<Ran> = Seq::empty();
    let ghost mut iran: Seq<Ran> = Seq::empty();
    let ghost mut tran: Seq<Ran> = Seq::empty();
    let mut failed = false;
    let mut i: usize = 0;
    while i < n
        invariant
            n == relations.rows@.len(),
            grel.outcome() == Ok::<DbRows, String>(relations),
            i <= n,
            names@.len() == i,
            columns@.len() == i,
            indices@.len() == i,
            triggers@.len() == i,
            cran.len() == i,
            iran.len() == i,
            tran.len() == i,
            failed == !reply::ok_before(columns@, i as int),
            forall|k: int| 0 <= k < i ==> #[trigger] names@[k]@ == reply::row_name(relations.rows@[k]@),
            forall|k: int| 0 <= k < i && reply::ok_before(columns@, k) ==> {
                &&& (#[trigger] cran[k]).is_plain_call("::columns "@ + names@[k]@, false)
                &&& columns@[k] == cran[k].outcome()
            },
            forall|k: int| 0 <= k < i && reply::ok_before(columns@, k + 1) ==> {
                &&& (#[trigger] iran[k]).is_plain_call("::indices "@ + names@[k]@, false)
                &&& indices@[k] == ok_of(iran[k].outcome())
                &&& tran[k].is_plain_call("::show_triggers "@ + names@[k]@, false)
                &&& triggers@[k] == ok_of(tran[k].outcome())
            },
        decreases n - i,
    {
        let row = &relations.rows[i];
        let name = if row.len() > 0 {
            db::cell_text(&row[0])
        } else {
            String::new()
        };
        let ghost before = columns@;
        if failed {
            columns.push(Err(String::new()));
            indices.push(None);
            triggers.push(None);
            proof {
                cran = cran.push(grel);
                iran = iran.push(grel);
                tran = tran.push(grel);
                assert(!reply::ok_before(before, i as int));
                assert forall|k: int| 0 <= k <= i implies (reply::ok_before(columns@, k) <==> reply::ok_before(before, k)) by {
                    if reply::ok_before(before, k) {
                        assert forall|m: int| 0 <= m < k implies (#[trigger] columns@[m]) is Ok by {
                            assert(before[m] is Ok);
                        }
                    }
                    if reply::ok_before(columns@, k) {
                        assert forall|m: int| 0 <= m < k implies (#[trigger] before[m]) is Ok by {
                            assert(columns@[m] is Ok);
                        }
                    }
                }
                assert(!reply::ok_before(columns@, i + 1)) by {
                    assert(!reply::ok_before(columns@, i as int));
                }
            }
        } else {
            let cs = script::columns_script(name.as_str());
            let cr = db::run_plain(db, cs.as_str(), false);
            let ghost gcr = cr;
            match cr.into_outcome() {
                Ok(c) => {
                    let is = script::indices_script(name.as_str());
                    let ir = db::run_plain(db, is.as_str(), false);
                    let ghost gir = ir;
                    let ts = script::triggers_script(name.as_str());
                    let tr = db::run_plain(db, ts.as_str(), false);
                    let ghost gtr = tr;
                    let ix = match ir.into_outcome() {
                        Ok(x) => Some(x),
                        Err(_) => None,
                    };
                    let tx = match tr.into_outcome() {
                        Ok(x) => Some(x),
                        Err(_) => None,
                    };
                    columns.push(Ok(c));
                    indices.push(ix);
                    triggers.push(tx);
                    proof {
                        cran = cran.push(gcr);
                        iran = iran.push(gir);
                        tran = tran.push(gtr);
                    }
                },
                Err(e) => {
                    failed = true;
                    columns.push(Err(e));
                    indices.push(None);
                    triggers.push(None);
                    proof {
                        cran = cran.push(gcr);
                        iran = iran.push(grel);
                        tran = tran.push(grel);
                    }
                },
            }
            proof {
                assert(reply::ok_before(before, i as int));
                assert forall|k: int| 0 <= k <= i implies reply::ok_before(columns@, k) by {
                    assert forall|m: int| 0 <= m < k implies (#[trigger] columns@[m]) is Ok by {
                        assert(before[m] is Ok);
                    }
                }
                assert(failed == !reply::ok_before(columns@, i + 1)) by {
                    if !failed {
                        assert forall|m: int| 0 <= m < i + 1 implies (#[trigger] columns@[m]) is Ok by {
                            if m < i {
                                assert(before[m] is Ok);
                            }
                        }
                    } else {
                        assert(columns@[i as int] is Err);
                    }
                }
            }
        }
        names.push(name);
        proof {
            assert forall|k: int| 0 <= k < i + 1 && reply::ok_before(columns@, k) implies {
                &&& (#[trigger] cran[k]).is_plain_call("::columns "@ + names@[k]@, false)
                &&& columns@[k] == cran[k].outcome()
            } by {
                if k < i {
                    assert(reply::ok_before(before, k)) by {
                        assert forall|m: int| 0 <= m < k implies (#[trigger] before[m]) is Ok by {
                            assert(columns@[m] is Ok);
                        }
                    }
                }
            }
            assert forall|k: int| 0 <= k < i + 1 && reply::ok_before(columns@, k + 1) implies {
                &&& (#[trigger] iran[k]).is_plain_call("::indices "@ + names@[k]@, false)
                &&& indices@[k] == ok_of(iran[k].outcome())
                &&& tran[k].is_plain_call("::show_triggers "@ + names@[k]@, false)
                &&& triggers@[k] == ok_of(tran[k].outcome())
            } by {
                if k < i {
                    assert(reply::ok_before(before, k + 1)) by {
                        assert forall|m: int| 0 <= m < k + 1 implies (#[trigger] before[m]) is Ok by {
                            assert(columns@[m] is Ok);
                        }
                    }
                } else {
                    assert(columns@[k] is Ok);
                }
            }
        }
        i = i + 1;
    }
    let ghost gn = views(names@);
    let ghost gc = columns@;
    let ghost gi = indices@;
    let ghost gt = triggers@;
    let j = reply::schema_from(&relations, names, columns, indices, triggers);
    proof {
        assert(is_schema_walk(j@, grel, gn, gc, gi, gt, cran, iran, tran));
    }
    Ok(j)
}

/// `Bad data for '<name>': <error>`.
pub fn bad_data(name: &str, error: &str) -> (res: String)
    ensures
        res@ == bad_data_message(name@, error@),
{
    let mut r = String::from_str("Bad data for '");
    r.append(name);
    r.append("': ");
    r.append(error);
    r
}

/// Law: validating a script agrees with explaining it. Where the engine answers
/// the two runs of `::explain { <s> }` alike (both succeed or both fail), the
/// validation says `"valid": true` exactly when the explanation says `"ok":
/// true`; the validation itself always says `"ok": true` and gives the script
/// back.
pub proof fn law_validate_agrees_with_explain(jv: Jv, je: Jv, rv: Ran, re: Ran, s: Seq<char>)
    requires
        rv.is_plain_call("::explain { "@ + s + " }"@, false),
        re.is_plain_call("::explain { "@ + s + " }"@, false),
        rv.outcome() is Ok <==> re.outcome() is Ok,
        is_obj(jv, validate_map(s, outcome_error(rv.outcome()))),
        reply::is_rows_reply(je, re.outcome()),
    ensures
        field(jv, "ok"@) == Some(Jv::Bool(true)),
        field(jv, "script"@) == Some(Jv::Str(s)),
        field(jv, "valid"@) == Some(Jv::Bool(field(je, "ok"@) == Some(Jv::Bool(true)))),
{
    reply::lemma_reply_keys();
    match re.outcome() {
        Ok(r) => {
            let extra = map!["ok"@ => Jv::Bool(true)];
            assert(extra.dom().contains("ok"@));
            assert(obj_of(je).dom().contains("ok"@));
            assert(obj_of(je)["ok"@] == extra["ok"@]);
        },
        Err(m) => {
            assert(obj_of(je) == error_map(m@));
        },
    }
}

/// Law: the schema lists every relation of the relation listing. Where the
/// engine answers the schema's `::relations` as it answers another run of
/// `::relations`, with a listing, and every `::columns` succeeds, the schema
/// says `"ok": true` and has one entry per row of that listing, in order; entry
/// `i` is built from the `::columns` of the relation named by the first cell of
/// row `i`.
pub proof fn law_schema_lists_each_relation(
    j: Jv,
    rel: Ran,
    names: Seq<Seq<char>>,
    cols: Seq<Result<DbRows, String>>,
    idx: Seq<Option<DbRows>>,
    trg: Seq<Option<DbRows>>,
    cran: Seq<Ran>,
    iran: Seq<Ran>,
    tran: Seq<Ran>,
    listing: Ran,
)
    requires
        is_schema_walk(j, rel, names, cols, idx, trg, cran, iran, tran),
        listing.is_plain_call("::relations"@, false),
        listing.outcome() is Ok,
        rel.outcome() == listing.outcome(),
        forall|i: int| 0 <= i < cols.len() ==> (#[trigger] cols[i]) is Ok,
    ensures
        field(j, "ok"@) == Some(Jv::Bool(true)),
        field(j, "schema"@) matches Some(Jv::Arr(es)) && es.len() == listing.outcome()->Ok_0.rows@.len(),
        forall|i: int| 0 <= i < listing.outcome()->Ok_0.rows@.len() ==> {
            &&& #[trigger] names[i] == reply::row_name(listing.outcome()->Ok_0.rows@[i]@)
            &&& cran[i].is_plain_call("::columns "@ + names[i], false)
            &&& cols[i] == cran[i].outcome()
        },
{
    reply::lemma_reply_keys();
    let r = listing.outcome()->Ok_0;
    assert(reply::ok_before(cols, cols.len() as int));
    assert forall|i: int| 0 <= i < r.rows@.len() implies {
        &&& #[trigger] names[i] == reply::row_name(r.rows@[i]@)
        &&& cran[i].is_plain_call("::columns "@ + names[i], false)
        &&& cols[i] == cran[i].outcome()
    } by {
        assert(reply::ok_before(cols, i));
    }
    if exists|k: int| 0 <= k < cols.len() && reply::ok_before(cols, k) && (#[trigger] cols[k]) is Err && is_obj(j, error_map(cols[k]->Err_0@)) {
        let k = choose|k: int| 0 <= k < cols.len() && reply::ok_before(cols, k) && (#[trigger] cols[k]) is Err && is_obj(j, error_map(cols[k]->Err_0@));
        assert(cols[k] is Ok);
    }
}

} // verus!
