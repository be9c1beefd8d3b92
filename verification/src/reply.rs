//! The JSON replies that the backends and the HTTP API give: every reply is an
//! object; `"ok": false` with a `"message"` marks a failure.

use vstd::prelude::*;
use crate::json::{Json, Jv, obj_of, is_obj, str_arr, field};
use std::collections::BTreeMap;
use crate::db::{DbRows, Ran, cell_value, cell_model, cell_text_of};
use crate::engine::{Tx, TxEnd};
use crate::paging::{page, paginate};
use crate::text::views;

verus! {

/// The texts of the field names that replies use.
pub proof fn lemma_reply_keys()
    ensures
        "headers"@ == seq!['h', 'e', 'a', 'd', 'e', 'r', 's'],
        "rows"@ == seq!['r', 'o', 'w', 's'],
        "next"@ == seq!['n', 'e', 'x', 't'],
        "ok"@ == seq!['o', 'k'],
        "message"@ == seq!['m', 'e', 's', 's', 'a', 'g', 'e'],
        "elapsed_ms"@ == seq!['e', 'l', 'a', 'p', 's', 'e', 'd', '_', 'm', 's'],
        "total_rows"@ == seq!['t', 'o', 't', 'a', 'l', '_', 'r', 'o', 'w', 's'],
        "returned_rows"@ == seq!['r', 'e', 't', 'u', 'r', 'n', 'e', 'd', '_', 'r', 'o', 'w', 's'],
        "offset"@ == seq!['o', 'f', 'f', 's', 'e', 't'],
        "limit"@ == seq!['l', 'i', 'm', 'i', 't'],
        "valid"@ == seq!['v', 'a', 'l', 'i', 'd'],
        "error"@ == seq!['e', 'r', 'r', 'o', 'r'],
        "script"@ == seq!['s', 'c', 'r', 'i', 'p', 't'],
        "status"@ == seq!['s', 't', 'a', 't', 'u', 's'],
        "mode"@ == seq!['m', 'o', 'd', 'e'],
        "engine"@ == seq!['e', 'n', 'g', 'i', 'n', 'e'],
        "relation_count"@ == seq!['r', 'e', 'l', 'a', 't', 'i', 'o', 'n', '_', 'c', 'o', 'u', 'n', 't'],
        "running_queries"@ == seq!['r', 'u', 'n', 'n', 'i', 'n', 'g', '_', 'q', 'u', 'e', 'r', 'i', 'e', 's'],
        "fixed_rule_count"@ == seq!['f', 'i', 'x', 'e', 'd', '_', 'r', 'u', 'l', 'e', '_', 'c', 'o', 'u', 'n', 't'],
        "results"@ == seq!['r', 'e', 's', 'u', 'l', 't', 's'],
        "query_count"@ == seq!['q', 'u', 'e', 'r', 'y', '_', 'c', 'o', 'u', 'n', 't'],
        "schema"@ == seq!['s', 'c', 'h', 'e', 'm', 'a'],
        "name"@ == seq!['n', 'a', 'm', 'e'],
        "columns"@ == seq!['c', 'o', 'l', 'u', 'm', 'n', 's'],
        "indices"@ == seq!['i', 'n', 'd', 'i', 'c', 'e', 's'],
        "triggers"@ == seq!['t', 'r', 'i', 'g', 'g', 'e', 'r', 's'],
        "data"@ == seq!['d', 'a', 't', 'a'],
{
    reveal_strlit("headers");
    reveal_strlit("rows");
    reveal_strlit("next");
    reveal_strlit("ok");
    reveal_strlit("message");
    reveal_strlit("elapsed_ms");
    reveal_strlit("total_rows");
    reveal_strlit("returned_rows");
    reveal_strlit("offset");
    reveal_strlit("limit");
    reveal_strlit("valid");
    reveal_strlit("error");
    reveal_strlit("script");
    reveal_strlit("status");
    reveal_strlit("mode");
    reveal_strlit("engine");
    reveal_strlit("relation_count");
    reveal_strlit("running_queries");
    reveal_strlit("fixed_rule_count");
    reveal_strlit("results");
    reveal_strlit("query_count");
    reveal_strlit("schema");
    reveal_strlit("name");
    reveal_strlit("columns");
    reveal_strlit("indices");
    reveal_strlit("triggers");
    reveal_strlit("data");
}

/// The JSON of the rows of a result: one array per row, one value per cell, in
/// order, each cell's value as [`cell_model`] gives it.
pub open spec fn rows_model(rows: Seq<Vec<cozo::DataValue>>, j: Jv) -> bool {
    &&& j is Arr
    &&& j->Arr_0.len() == rows.len()
    &&& forall|i: int|
        0 <= i < rows.len() ==> {
            &&& (#[trigger] j->Arr_0[i]) is Arr
            &&& j->Arr_0[i]->Arr_0.len() == rows[i]@.len()
            &&& forall|c: int| 0 <= c < rows[i]@.len() ==> (#[trigger] j->Arr_0[i]->Arr_0[c]) == cell_model(rows[i]@[c])
        }
}

/// `j` is the JSON object of a result with the given headers, rows and further
/// results, with the fields `extra` added (none of them named `headers`, `rows`
/// or `next`).
pub open spec fn is_rows_json(
    j: Jv,
    headers: Seq<Seq<char>>,
    rows: Seq<Vec<cozo::DataValue>>,
    next: Jv,
    extra: Map<Seq<char>, Jv>,
) -> bool {
    let m = obj_of(j);
    &&& j is Obj
    &&& m.dom() == set!["headers"@, "rows"@, "next"@].union(extra.dom())
    &&& m["headers"@] == str_arr(headers)
    &&& rows_model(rows, m["rows"@])
    &&& m["next"@] == next
    &&& forall|k: Seq<char>| #[trigger] extra.dom().contains(k) ==> m[k] == extra[k]
}

/// The JSON of a list of strings.
pub fn strings_json(v: &[String]) -> (res: Json)
    ensures
        res@ == str_arr(views(v@)),
{
    let mut out: Vec<Json> = Vec::new();
    let mut i: usize = 0;
    while i < v.len()
        invariant
            i <= v@.len(),
            out@.len() == i,
            forall|j: int| 0 <= j < i ==> (#[trigger] out@[j])@ == Jv::Str(v@[j]@),
        decreases v@.len() - i,
    {
        out.push(Json::Str(v[i].clone()));
        i = i + 1;
    }
    let res = Json::Arr(out);
    assert(res@->Arr_0 =~= views(v@).map_values(|t: Seq<char>| Jv::Str(t)));
    res
}

/// The JSON of the rows of a result.
pub fn rows_array(rows: &Vec<Vec<cozo::DataValue>>) -> (res: Json)
    ensures
        rows_model(rows@, res@),
{
    let mut out: Vec<Json> = Vec::new();
    let mut i: usize = 0;
    while i < rows.len()
        invariant
            i <= rows@.len(),
            out@.len() == i,
            forall|j: int|
                0 <= j < i ==> {
                    &&& (#[trigger] out@[j])@ is Arr
                    &&& out@[j]@->Arr_0.len() == rows@[j]@.len()
                    &&& forall|c: int| 0 <= c < rows@[j]@.len() ==> (#[trigger] out@[j]@->Arr_0[c]) == cell_model(rows@[j]@[c])
                },
        decreases rows@.len() - i,
    {
        let row = &rows[i];
        let mut cells: Vec<Json> = Vec::new();
        let mut c: usize = 0;
        while c < row.len()
            invariant
                c <= row@.len(),
                row == &rows@[i as int],
                cells@.len() == c,
                forall|k: int| 0 <= k < c ==> (#[trigger] cells@[k])@ == cell_model(row@[k]),
            decreases row@.len() - c,
        {
            cells.push(cell_value(&row[c]));
            c = c + 1;
        }
        let rj = Json::Arr(cells);
        out.push(rj);
        i = i + 1;
    }
    let res = Json::Arr(out);
    assert forall|j: int| 0 <= j < rows@.len() implies res@->Arr_0[j] == out@[j]@ by {}
    res
}

/// The JSON object of a result: `{"headers": [...], "rows": [[...], ...], "next": ...}`.
pub fn rows_json(r: DbRows) -> (res: Json)
    ensures
        is_rows_json(res@, views(r.headers@), r.rows@, r.next@, Map::empty()),
{
    let h = strings_json(r.headers.as_slice());
    let rs = rows_array(&r.rows);
    let mut res = Json::empty_obj();
    res.set("headers", h);
    res.set("rows", rs);
    res.set("next", r.next);
    proof { lemma_reply_keys(); }
    assert(obj_of(res@).dom() =~= set!["headers"@, "rows"@, "next"@].union(Map::<Seq<char>, Jv>::empty().dom()));
    res
}

/// `next` is the JSON of the results `parts[i..]` chained in order: `null` past
/// the last one, otherwise the result `parts[i]` whose `next` is the JSON of
/// the rest.
pub open spec fn is_chain_json(next: Jv, parts: Seq<(Seq<Seq<char>>, Seq<Vec<cozo::DataValue>>)>, i: int) -> bool
    decreases parts.len() - i,
{
    if i < 0 || i >= parts.len() {
        next == Jv::Null
    } else {
        &&& is_rows_json(next, parts[i].0, parts[i].1, obj_of(next)["next"@], Map::empty())
        &&& is_chain_json(obj_of(next)["next"@], parts, i + 1)
    }
}

/// The first of a chain of results, with the others as its `next`.
pub fn chain_rows(parts: Vec<(Vec<String>, Vec<Vec<cozo::DataValue>>)>) -> (res: DbRows)
    requires
        parts@.len() >= 1,
    ensures
        res.headers@ == parts@[0].0@,
        res.rows@ == parts@[0].1@,
        is_chain_json(res.next@, crate::db::parts_view(parts@), 1),
{
    let ghost gp = parts@;
    let mut parts = parts;
    let mut next = Json::Null;
    while parts.len() > 1
        invariant
            1 <= parts@.len() <= gp.len(),
            parts@ == gp.take(parts@.len() as int),
            is_chain_json(next@, crate::db::parts_view(gp), parts@.len() as int),
        decreases parts@.len(),
    {
        let k = parts.len() - 1;
        let (h, r) = parts.pop().unwrap();
        assert(parts@ =~= gp.take(k as int));
        let ghost old_next = next@;
        let ghost gh = h;
        let ghost gr = r;
        next = rows_json(DbRows { headers: h, rows: r, next });
        proof {
            lemma_reply_keys();
            assert(gp[k as int] == (gh, gr));
            assert(crate::db::parts_view(gp)[k as int] == (views(gh@), gr@));
            assert(obj_of(next@)["next"@] == old_next);
        }
    }
    let (h, r) = parts.pop().unwrap();
    assert(gp[0] == (h, r));
    DbRows { headers: h, rows: r, next }
}

/// `{"ok": false, "message": <message>}`.
pub open spec fn error_map(message: Seq<char>) -> Map<Seq<char>, Jv> {
    map!["ok"@ => Jv::Bool(false), "message"@ => Jv::Str(message)]
}

/// The reply to a request that failed with `message`.
pub fn error_reply(message: &str) -> (res: Json)
    ensures
        is_obj(res@, error_map(message@)),
{
    let mut res = Json::empty_obj();
    res.set("ok", Json::Bool(false));
    res.set("message", Json::text(message));
    assert(obj_of(res@) =~= error_map(message@));
    res
}

/// The reply `{"ok": true}`.
pub fn ok_reply() -> (res: Json)
    ensures
        is_obj(res@, map!["ok"@ => Jv::Bool(true)]),
{
    let mut res = Json::empty_obj();
    res.set("ok", Json::Bool(true));
    assert(obj_of(res@) =~= map!["ok"@ => Jv::Bool(true)]);
    res
}

/// `j` is the reply to a read-only system command whose outcome was `out`: the
/// result with `"ok": true`, or the error.
pub open spec fn is_rows_reply(j: Jv, out: Result<DbRows, String>) -> bool {
    match out {
        Ok(r) => is_rows_json(j, views(r.headers@), r.rows@, r.next@, map!["ok"@ => Jv::Bool(true)]),
        Err(m) => is_obj(j, error_map(m@)),
    }
}

/// `j` is the reply to a command whose result is not shown and whose outcome
/// was `out`: `{"ok": true}`, or the error.
pub open spec fn is_done_reply_of(j: Jv, out: Result<DbRows, String>) -> bool {
    match out {
        Ok(_) => is_obj(j, map!["ok"@ => Jv::Bool(true)]),
        Err(m) => is_obj(j, error_map(m@)),
    }
}

/// `j` is the reply to a request that answers only success or failure, whose
/// outcome was `out`: `{"ok": true}` or the error.
pub open spec fn is_chore_reply_of(j: Jv, out: Result<(), String>) -> bool {
    match out {
        Ok(_) => is_obj(j, map!["ok"@ => Jv::Bool(true)]),
        Err(m) => is_obj(j, error_map(m@)),
    }
}

/// `j` is the reply to a query whose outcome was `out`, taking `elapsed`
/// milliseconds: the page of rows that `limit` and `offset` select with the row
/// counts (and `"ok": true` when `with_ok`), or the error with the time taken.
pub open spec fn is_query_reply(j: Jv, out: Result<DbRows, String>, elapsed: nat, limit: nat, offset: nat, with_ok: bool) -> bool {
    match out {
        Ok(r) => is_rows_json(
            j,
            views(r.headers@),
            page(r.rows@, limit, offset),
            r.next@,
            query_extra(with_ok, elapsed, r.rows@.len(), page(r.rows@, limit, offset).len(), limit, offset),
        ),
        Err(m) => is_obj(j, timed_error_map(m@, elapsed)),
    }
}

/// The reply to a read-only system command: the result with `"ok": true`, or the
/// error.
pub fn rows_reply(out: Result<DbRows, String>) -> (res: Json)
    ensures
        is_rows_reply(res@, out),
{
    match out {
        Ok(r) => {
            let ghost r0 = r;
            let mut res = rows_json(r);
            res.set("ok", Json::Bool(true));
            proof { lemma_reply_keys(); }
            assert(obj_of(res@).dom() =~= set!["headers"@, "rows"@, "next"@].union(map!["ok"@ => Jv::Bool(true)].dom()));
            res
        },
        Err(m) => error_reply(m.as_str()),
    }
}

/// The reply to a command whose result is not shown: `{"ok": true}`, or the error.
pub fn done_reply(out: Result<(), String>) -> (res: Json)
    ensures
        out is Ok ==> is_obj(res@, map!["ok"@ => Jv::Bool(true)]),
        out matches Err(m) ==> is_obj(res@, error_map(m@)),
        is_chore_reply_of(res@, out),
{
    match out {
        Ok(_) => ok_reply(),
        Err(m) => error_reply(m.as_str()),
    }
}

/// The fields that a query reply adds to the result: timing and row counts, the
/// offset and limit when they are set, and `"ok": true` when `with_ok`.
pub open spec fn query_extra(
    with_ok: bool,
    elapsed: nat,
    total: nat,
    returned: nat,
    limit: nat,
    offset: nat,
) -> Map<Seq<char>, Jv> {
    let base = map![
        "elapsed_ms"@ => Jv::UInt(elapsed),
        "total_rows"@ => Jv::UInt(total),
        "returned_rows"@ => Jv::UInt(returned),
    ];
    let with_ok_field = if with_ok { base.insert("ok"@, Jv::Bool(true)) } else { base };
    let with_offset = if offset > 0 { with_ok_field.insert("offset"@, Jv::UInt(offset)) } else { with_ok_field };
    if limit > 0 { with_offset.insert("limit"@, Jv::UInt(limit)) } else { with_offset }
}

/// `{"ok": false, "message": <message>, "elapsed_ms": <elapsed>}`.
pub open spec fn timed_error_map(message: Seq<char>, elapsed: nat) -> Map<Seq<char>, Jv> {
    error_map(message).insert("elapsed_ms"@, Jv::UInt(elapsed))
}

/// The reply to a failed request that reports its time.
pub fn timed_error_reply(message: &str, elapsed: u64) -> (res: Json)
    ensures
        is_obj(res@, timed_error_map(message@, elapsed as nat)),
{
    let mut res = error_reply(message);
    res.set("elapsed_ms", Json::UInt(elapsed));
    res
}

/// The reply to a query: the page of rows that `limit` and `offset` select, with
/// the counts before and after paging and the time taken; or the error with the
/// time taken.
pub fn query_reply(out: Result<DbRows, String>, elapsed: u64, limit: usize, offset: usize, with_ok: bool) -> (res: Json)
    ensures
        is_query_reply(res@, out, elapsed as nat, limit as nat, offset as nat, with_ok),
{
    match out {
        Ok(r) => {
            let ghost r0 = r;
            let DbRows { headers, rows, next } = r;
            let mut rows = rows;
            let (total, returned) = paginate(&mut rows, limit, offset);
            let paged = DbRows { headers, rows, next };
            let mut res = rows_json(paged);
            let ghost paged_rows = page(r0.rows@, limit as nat, offset as nat);
            if with_ok {
                res.set("ok", Json::Bool(true));
            }
            res.set("elapsed_ms", Json::UInt(elapsed));
            res.set("total_rows", Json::UInt(total as u64));
            res.set("returned_rows", Json::UInt(returned as u64));
            if offset > 0 {
                res.set("offset", Json::UInt(offset as u64));
            }
            if limit > 0 {
                res.set("limit", Json::UInt(limit as u64));
            }
            proof { lemma_reply_keys(); }
            let ghost extra = query_extra(with_ok, elapsed as nat, total as nat, returned as nat, limit as nat, offset as nat);
            assert(obj_of(res@).dom() =~= set!["headers"@, "rows"@, "next"@].union(extra.dom()));
            res
        },
        Err(m) => timed_error_reply(m.as_str(), elapsed),
    }
}


/// The reply to a validation: `"ok": true` always, `"valid"` telling whether the
/// script was accepted, the engine's error when it was not, and the script.
pub open spec fn validate_map(script: Seq<char>, error: Option<Seq<char>>) -> Map<Seq<char>, Jv> {
    match error {
        None => map!["ok"@ => Jv::Bool(true), "valid"@ => Jv::Bool(true), "script"@ => Jv::Str(script)],
        Some(e) => map![
            "ok"@ => Jv::Bool(true),
            "valid"@ => Jv::Bool(false),
            "error"@ => Jv::Str(e),
            "script"@ => Jv::Str(script),
        ],
    }
}

/// The error of a run, if it failed.
pub open spec fn outcome_error(out: Result<DbRows, String>) -> Option<Seq<char>> {
    match out {
        Ok(_) => None,
        Err(e) => Some(e@),
    }
}

/// The reply to a validation whose explain run ended with `out`.
pub fn validate_reply(script: &str, out: Result<DbRows, String>) -> (res: Json)
    ensures
        out is Ok ==> is_obj(res@, validate_map(script@, None)),
        out matches Err(e) ==> is_obj(res@, validate_map(script@, Some(e@))),
{
    let mut res = Json::empty_obj();
    res.set("ok", Json::Bool(true));
    match out {
        Ok(_) => {
            res.set("valid", Json::Bool(true));
            res.set("script", Json::text(script));
            proof { lemma_reply_keys(); }
            assert(obj_of(res@) =~= validate_map(script@, None));
        },
        Err(e) => {
            res.set("valid", Json::Bool(false));
            res.set("error", Json::Str(e));
            res.set("script", Json::text(script));
            proof { lemma_reply_keys(); }
            assert(obj_of(res@) =~= validate_map(script@, Some(e@)));
        },
    }
    res
}

/// The number of rows of a result, 0 when the run failed.
pub open spec fn count_of(out: Result<DbRows, String>) -> nat {
    match out {
        Ok(r) => r.rows@.len(),
        Err(_) => 0,
    }
}

/// The number of rows of a result, 0 when the run failed.
pub fn row_count(out: &Result<DbRows, String>) -> (n: usize)
    ensures
        n == count_of(*out),
{
    match out {
        Ok(r) => r.rows.len(),
        Err(_) => 0,
    }
}

/// The health reply: status, engine, and the counts of relations, running
/// queries and fixed rules (each 0 when its listing failed); `"mode"` when given.
pub open spec fn health_map(
    engine: Seq<char>,
    mode: Option<Seq<char>>,
    relations: nat,
    running: nat,
    fixed_rules: nat,
) -> Map<Seq<char>, Jv> {
    let base = map![
        "ok"@ => Jv::Bool(true),
        "status"@ => Jv::Str("healthy"@),
        "engine"@ => Jv::Str(engine),
        "relation_count"@ => Jv::UInt(relations),
        "running_queries"@ => Jv::UInt(running),
        "fixed_rule_count"@ => Jv::UInt(fixed_rules),
    ];
    match mode {
        Some(m) => base.insert("mode"@, Jv::Str(m)),
        None => base,
    }
}

/// The health reply from the three listings that it counts.
pub fn health_reply(
    engine: &str,
    mode: Option<&str>,
    relations: &Result<DbRows, String>,
    running: &Result<DbRows, String>,
    fixed_rules: &Result<DbRows, String>,
) -> (res: Json)
    ensures
        is_obj(
            res@,
            health_map(
                engine@,
                match mode {
                    Some(m) => Some(m@),
                    None => None,
                },
                count_of(*relations),
                count_of(*running),
                count_of(*fixed_rules),
            ),
        ),
{
    let mut res = Json::empty_obj();
    res.set("ok", Json::Bool(true));
    res.set("status", Json::text("healthy"));
    match mode {
        Some(m) => res.set("mode", Json::text(m)),
        None => {},
    }
    res.set("engine", Json::text(engine));
    res.set("relation_count", Json::UInt(row_count(relations) as u64));
    res.set("running_queries", Json::UInt(row_count(running) as u64));
    res.set("fixed_rule_count", Json::UInt(row_count(fixed_rules) as u64));
    proof { lemma_reply_keys(); }
    assert(obj_of(res@) =~= health_map(
        engine@,
        match mode {
            Some(m) => Some(m@),
            None => None,
        },
        count_of(*relations),
        count_of(*running),
        count_of(*fixed_rules),
    ));
    res
}

/// The JSON array of a list of values.
pub open spec fn arr_of(v: Seq<Json>) -> Jv {
    Jv::Arr(v.map_values(|j: Json| j@))
}

/// The reply to a batch that ran: `"ok": true`, one result per query, the time
/// taken and the number of results.
pub open spec fn batch_map(results: Seq<Json>, elapsed: nat) -> Map<Seq<char>, Jv> {
    map![
        "ok"@ => Jv::Bool(true),
        "results"@ => arr_of(results),
        "elapsed_ms"@ => Jv::UInt(elapsed),
        "query_count"@ => Jv::UInt(results.len()),
    ]
}

/// The reply to a batch that ran.
pub fn batch_reply(results: Vec<Json>, elapsed: u64) -> (res: Json)
    ensures
        is_obj(res@, batch_map(results@, elapsed as nat)),
{
    let n = results.len();
    let ghost rs = results@;
    let mut res = Json::empty_obj();
    res.set("ok", Json::Bool(true));
    let arr = Json::Arr(results);
    assert(arr@ == arr_of(rs)) by {
        assert(arr@->Arr_0 =~= rs.map_values(|j: Json| j@));
    }
    res.set("results", arr);
    res.set("elapsed_ms", Json::UInt(elapsed));
    res.set("query_count", Json::UInt(n as u64));
    proof { lemma_reply_keys(); }
    assert(obj_of(res@) =~= batch_map(rs, elapsed as nat));
    res
}

/// The reply of one query of a batch: its result (with `"ok": true` when
/// `with_ok`), or its error.
pub open spec fn is_batch_item(j: Jv, out: Result<DbRows, String>, with_ok: bool) -> bool {
    match out {
        Ok(r) => is_rows_json(
            j,
            views(r.headers@),
            r.rows@,
            r.next@,
            if with_ok { map!["ok"@ => Jv::Bool(true)] } else { Map::empty() },
        ),
        Err(m) => is_obj(j, error_map(m@)),
    }
}

/// `j` is the reply of a batch from the outcomes of its queries, in order, and
/// of its commit: in a transaction, the first failed query, or else a failed
/// commit, is the reply (with the time taken); otherwise each outcome gives one
/// result, in order.
pub open spec fn is_batch_reply(
    j: Jv,
    outs: Seq<Result<DbRows, String>>,
    commit: Option<Result<(), String>>,
    transactional: bool,
    elapsed: nat,
    with_ok: bool,
) -> bool {
    if transactional && !ok_before(outs, outs.len() as int) {
        exists|k: int|
            0 <= k < outs.len() && ok_before(outs, k) && (#[trigger] outs[k]) is Err && is_obj(
                j,
                timed_error_map(outs[k]->Err_0@, elapsed),
            )
    } else if transactional && commit is Some && commit->0 is Err {
        is_obj(j, timed_error_map(commit->0->Err_0@, elapsed))
    } else {
        exists|rs: Seq<Json>| {
            &&& #[trigger] is_obj(j, batch_map(rs, elapsed))
            &&& rs.len() == outs.len()
            &&& forall|i: int| 0 <= i < rs.len() ==> is_batch_item((#[trigger] rs[i])@, outs[i], with_ok)
        }
    }
}

/// The outcomes of a list of runs.
pub open spec fn outcomes_of(runs: Seq<Ran>) -> Seq<Result<DbRows, String>> {
    runs.map_values(|r: Ran| r.outcome())
}

/// `j` is the reply of the batch of queries `scripts` with `params`: run `i`
/// ran query `i` (writing, inside the transaction when `transactional`); every
/// query ran, except that a transaction stops at its first failure; the
/// transaction is committed (with outcome `commit`) exactly when no query
/// failed, and aborted otherwise (`tx` is the transaction, whose record tells
/// how it ended and what its commit answered); and the reply is
/// [`is_batch_reply`] of the outcomes.
pub open spec fn is_batch_walk(
    j: Jv,
    scripts: Seq<Seq<char>>,
    params: Seq<BTreeMap<String, serde_json::Value>>,
    transactional: bool,
    runs: Seq<Ran>,
    commit: Option<Result<(), String>>,
    tx: Option<Tx>,
    elapsed: nat,
    with_ok: bool,
) -> bool {
    let outs = outcomes_of(runs);
    &&& runs.len() <= scripts.len()
    &&& forall|i: int| 0 <= i < runs.len() ==> {
        &&& (#[trigger] runs[i]).script() == scripts[i]
        &&& runs[i].params() == params[i]
        &&& runs[i].mutable()
        &&& runs[i].in_transaction() == transactional
    }
    &&& !transactional ==> runs.len() == scripts.len() && commit is None && tx is None
    &&& transactional ==> {
        &&& ok_before(outs, runs.len() - 1)
        &&& runs.len() < scripts.len() ==> runs.len() > 0 && outs[runs.len() - 1] is Err
        &&& commit is Some <==> ok_before(outs, runs.len() as int)
        &&& tx is Some
        &&& tx->0.end() == (if ok_before(outs, runs.len() as int) { TxEnd::Committed } else { TxEnd::Aborted })
        &&& tx->0.committed() == commit
    }
    &&& is_batch_reply(j, outs, commit, transactional, elapsed, with_ok)
}

/// Law: a transactional batch in which a query failed is all or nothing: its
/// transaction is aborted, not committed, and the reply is a failure carrying
/// the error of the first query that failed.
pub proof fn law_transaction_all_or_nothing(
    j: Jv,
    scripts: Seq<Seq<char>>,
    params: Seq<BTreeMap<String, serde_json::Value>>,
    runs: Seq<Ran>,
    commit: Option<Result<(), String>>,
    tx: Option<Tx>,
    elapsed: nat,
    with_ok: bool,
    k: int,
)
    requires
        is_batch_walk(j, scripts, params, true, runs, commit, tx, elapsed, with_ok),
        0 <= k < runs.len(),
        runs[k].outcome() is Err,
    ensures
        commit is None,
        tx matches Some(t) && t.end() == TxEnd::Aborted,
        field(j, "ok"@) == Some(Jv::Bool(false)),
        exists|f: int| 0 <= f < runs.len() && (#[trigger] runs[f]).outcome() is Err
            && (forall|i: int| 0 <= i < f ==> (#[trigger] runs[i]).outcome() is Ok)
            && field(j, "message"@) == Some(Jv::Str(runs[f].outcome()->Err_0@)),
{
    lemma_reply_keys();
    let outs = outcomes_of(runs);
    assert(outs[k] == runs[k].outcome());
    assert(!ok_before(outs, runs.len() as int));
    let f = choose|f: int|
        0 <= f < outs.len() && ok_before(outs, f) && (#[trigger] outs[f]) is Err && is_obj(
            j,
            timed_error_map(outs[f]->Err_0@, elapsed),
        );
    assert(outs[f] == runs[f].outcome());
    assert forall|i: int| 0 <= i < f implies (#[trigger] runs[i]).outcome() is Ok by {
        assert(outs[i] == runs[i].outcome());
    }
    let m = timed_error_map(outs[f]->Err_0@, elapsed);
    assert(obj_of(j) == m);
    assert(m.dom().contains("ok"@));
    assert(m.dom().contains("message"@));
    assert(m["ok"@] == Jv::Bool(false));
    assert(m["message"@] == Jv::Str(outs[f]->Err_0@));
}

/// The reply of a batch from the outcomes of its queries and of its commit
/// (see [`is_batch_reply`]).
pub fn batch_answer(
    outcomes: Vec<Result<DbRows, String>>,
    commit: Option<Result<(), String>>,
    transactional: bool,
    elapsed: u64,
    with_ok: bool,
) -> (res: Json)
    ensures
        is_batch_reply(res@, outcomes@, commit, transactional, elapsed as nat, with_ok),
{
    let n = outcomes.len();
    if transactional {
        let mut i: usize = 0;
        while i < n
            invariant
                transactional,
                i <= n,
                n == outcomes@.len(),
                ok_before(outcomes@, i as int),
            decreases n - i,
        {
            match &outcomes[i] {
                Err(m) => {
                    let r = timed_error_reply(m.as_str(), elapsed);
                    assert(outcomes@[i as int] is Err);
                    assert(!ok_before(outcomes@, n as int));
                    return r;
                },
                Ok(_) => {},
            }
            i = i + 1;
        }
        match &commit {
            Some(Err(e)) => {
                return timed_error_reply(e.as_str(), elapsed);
            },
            _ => {},
        }
    }
    let ghost go = outcomes@;
    let mut outs = outcomes;
    let mut results: Vec<Json> = Vec::new();
    let mut i: usize = 0;
    assert(outs@ =~= go.skip(0));
    while i < n
        invariant
            i <= n,
            n == go.len(),
            outs@ == go.skip(i as int),
            results@.len() == i,
            forall|k: int| 0 <= k < i ==> is_batch_item((#[trigger] results@[k])@, go[k], with_ok),
        decreases n - i,
    {
        let o = outs.remove(0);
        assert(outs@ =~= go.skip(i + 1));
        assert(o == go[i as int]);
        let item = match o {
            Ok(r) => {
                if with_ok {
                    let ghost gr = r;
                    let x = rows_reply(Ok(r));
                    assert(is_rows_reply(x@, Ok::<DbRows, String>(gr)));
                    x
                } else {
                    rows_json(r)
                }
            },
            Err(m) => error_reply(m.as_str()),
        };
        results.push(item);
        i = i + 1;
    }
    let ghost rs = results@;
    let res = batch_reply(results, elapsed);
    assert(is_obj(res@, batch_map(rs, elapsed as nat)));
    res
}

/// The reply listing the schema entries of all relations.
pub fn schema_reply(entries: Vec<Json>) -> (res: Json)
    ensures
        is_obj(res@, map!["ok"@ => Jv::Bool(true), "schema"@ => arr_of(entries@)]),
{
    let ghost es = entries@;
    let mut res = Json::empty_obj();
    res.set("ok", Json::Bool(true));
    let arr = Json::Arr(entries);
    assert(arr@->Arr_0 =~= es.map_values(|j: Json| j@));
    res.set("schema", arr);
    proof { lemma_reply_keys(); }
    assert(obj_of(res@) =~= map!["ok"@ => Jv::Bool(true), "schema"@ => arr_of(es)]);
    res
}

/// The keys that the relation listing's other columns (all but the first) add to
/// a schema entry: `headers[1..n]`.
pub open spec fn extra_keys(headers: Seq<Seq<char>>, n: nat) -> Set<Seq<char>> {
    Set::new(|k: Seq<char>| exists|i: int| 1 <= i < n && i < headers.len() && headers[i] == k)
}

proof fn lemma_extra_keys_step(h: Seq<Seq<char>>, i: nat)
    requires
        1 <= i < h.len(),
    ensures
        extra_keys(h, i + 1) == extra_keys(h, i).insert(h[i as int]),
{
    assert forall|k: Seq<char>| extra_keys(h, i + 1).contains(k) <==> extra_keys(h, i).insert(h[i as int]).contains(k) by {
        if extra_keys(h, i + 1).contains(k) {
            let j = choose|j: int| 1 <= j < i + 1 && j < h.len() && h[j] == k;
            if j < i {
                assert(extra_keys(h, i).contains(k));
            }
        }
        if extra_keys(h, i).contains(k) {
            let j = choose|j: int| 1 <= j < i && j < h.len() && h[j] == k;
            assert(1 <= j < i + 1 && j < h.len() && h[j] == k);
        }
        if k == h[i as int] {
            assert(1 <= i < i + 1 && i < h.len() && h[i as int] == k);
        }
    }
    assert(extra_keys(h, i + 1) =~= extra_keys(h, i).insert(h[i as int]));
}

proof fn lemma_extra_keys_none(h: Seq<Seq<char>>, n: nat)
    requires
        n <= 1,
    ensures
        extra_keys(h, n) == Set::<Seq<char>>::empty(),
{
    assert(extra_keys(h, n) =~= Set::<Seq<char>>::empty());
}

/// The fields that the other columns of a relation-listing row add to its
/// schema entry: for `1 <= i < n`, `headers[i]` holds the JSON of `row[i]`, a
/// later column replacing an earlier one of the same title.
pub open spec fn extra_fields(headers: Seq<Seq<char>>, row: Seq<cozo::DataValue>, n: nat) -> Map<Seq<char>, Jv>
    decreases n,
{
    if n <= 1 {
        Map::empty()
    } else {
        extra_fields(headers, row, (n - 1) as nat).insert(headers[n - 1], cell_model(row[n - 1]))
    }
}

/// Law: in the fields that the other columns of a relation-listing row add to
/// its schema entry, the title of column `i` (for `1 <= i < n`, when no later
/// column of the first `n` has the same title) holds the JSON of the cell of that
/// same column, `row[i]`.
pub proof fn law_extra_field_is_its_columns_cell(h: Seq<Seq<char>>, row: Seq<cozo::DataValue>, n: nat, i: int)
    requires
        n <= h.len(),
        n <= row.len(),
        1 <= i < n,
        forall|k: int| i < k < n ==> h[k] != h[i],
    ensures
        extra_fields(h, row, n).dom().contains(h[i]),
        extra_fields(h, row, n)[h[i]] == cell_model(row[i]),
    decreases n,
{
    if i == n - 1 {
    } else {
        law_extra_field_is_its_columns_cell(h, row, (n - 1) as nat, i);
        assert(h[n - 1] != h[i]);
    }
}

proof fn lemma_extra_fields_dom(h: Seq<Seq<char>>, row: Seq<cozo::DataValue>, n: nat)
    requires
        n <= h.len(),
    ensures
        extra_fields(h, row, n).dom() == extra_keys(h, n),
    decreases n,
{
    if n <= 1 {
        lemma_extra_keys_none(h, n);
        assert(extra_fields(h, row, n).dom() =~= Set::<Seq<char>>::empty());
    } else {
        lemma_extra_fields_dom(h, row, (n - 1) as nat);
        lemma_extra_keys_step(h, (n - 1) as nat);
    }
}

/// `j` is the schema entry of relation `name`: its name, its columns, its indices
/// and triggers when they could be listed, and one field per other column of
/// the relation listing (`headers[1..n]` with the cells of `row`), which takes
/// precedence.
pub open spec fn is_schema_entry(
    j: Jv,
    name: Seq<char>,
    columns: DbRows,
    indices: Option<DbRows>,
    triggers: Option<DbRows>,
    headers: Seq<Seq<char>>,
    row: Seq<cozo::DataValue>,
    n: nat,
) -> bool {
    let m = obj_of(j);
    let xs = extra_keys(headers, n);
    &&& j is Obj
    &&& m.dom() == set!["name"@, "columns"@].union(
        if indices is Some { set!["indices"@] } else { Set::empty() },
    ).union(if triggers is Some { set!["triggers"@] } else { Set::empty() }).union(xs)
    &&& !xs.contains("name"@) ==> m["name"@] == Jv::Str(name)
    &&& !xs.contains("columns"@) ==> is_rows_json(m["columns"@], views(columns.headers@), columns.rows@, columns.next@, Map::empty())
    &&& (indices is Some && !xs.contains("indices"@)) ==> is_rows_json(
        m["indices"@],
        views(indices->0.headers@),
        indices->0.rows@,
        indices->0.next@,
        Map::empty(),
    )
    &&& (triggers is Some && !xs.contains("triggers"@)) ==> is_rows_json(
        m["triggers"@],
        views(triggers->0.headers@),
        triggers->0.rows@,
        triggers->0.next@,
        Map::empty(),
    )
    &&& forall|k: Seq<char>| #[trigger] xs.contains(k) ==> m[k] == extra_fields(headers, row, n)[k]
    &&& (n <= headers.len() && n <= row.len()) ==> forall|i: int|
        1 <= i < n && (forall|k: int| i < k < n ==> headers[k] != headers[i]) ==> #[trigger] m[headers[i]] == cell_model(row[i])
}

/// The schema entry of one relation; `row` is the relation's row of the relation
/// listing, whose columns `headers` names.
pub fn schema_entry(
    name: String,
    columns: DbRows,
    indices: Option<DbRows>,
    triggers: Option<DbRows>,
    headers: &Vec<String>,
    row: &Vec<cozo::DataValue>,
) -> (res: Json)
    ensures
        is_schema_entry(
            res@,
            name@,
            columns,
            indices,
            triggers,
            views(headers@),
            row@,
            if headers@.len() <= row@.len() { headers@.len() } else { row@.len() },
        ),
{
    let ghost (c0, i0, t0) = (columns, indices, triggers);
    proof { lemma_reply_keys(); }
    let mut res = Json::empty_obj();
    res.set("name", Json::Str(name));
    let cj = rows_json(columns);
    res.set("columns", cj);
    match indices {
        Some(ix) => {
            let ij = rows_json(ix);
            res.set("indices", ij);
        },
        None => {},
    }
    match triggers {
        Some(tr) => {
            let tj = rows_json(tr);
            res.set("triggers", tj);
        },
        None => {},
    }
    let ghost base = obj_of(res@);
    assert(base["name"@] == Jv::Str(name@));
    assert(is_rows_json(base["columns"@], views(c0.headers@), c0.rows@, c0.next@, Map::empty()));
    assert(i0 is Some ==> is_rows_json(base["indices"@], views(i0->0.headers@), i0->0.rows@, i0->0.next@, Map::empty()));
    assert(t0 is Some ==> is_rows_json(base["triggers"@], views(t0->0.headers@), t0->0.rows@, t0->0.next@, Map::empty()));
    let n = if headers.len() <= row.len() { headers.len() } else { row.len() };
    let mut i: usize = 1;
    proof { lemma_extra_keys_none(views(headers@), 1); }
    while i < n
        invariant
            1 <= i,
            n <= headers@.len(),
            n <= row@.len(),
            i <= n || n <= 1,
            n <= 1 ==> i == 1,
            res@ is Obj,
            obj_of(res@).dom() == base.dom().union(extra_keys(views(headers@), i as nat)),
            forall|k: Seq<char>|
                #![trigger obj_of(res@)[k]]
                base.dom().contains(k) && !extra_keys(views(headers@), i as nat).contains(k) ==> obj_of(res@)[k] == base[k],
            forall|k: Seq<char>| #[trigger] extra_keys(views(headers@), i as nat).contains(k) ==> obj_of(res@)[k] == extra_fields(views(headers@), row@, i as nat)[k],
        decreases n - i,
    {
        res.set(headers[i].as_str(), cell_value(&row[i]));
        proof {
            lemma_extra_keys_step(views(headers@), i as nat);
            assert(views(headers@)[i as int] == headers@[i as int]@);
        }
        i = i + 1;
    }
    assert(extra_keys(views(headers@), i as nat) == extra_keys(views(headers@), n as nat)) by {
        if n <= 1 {
            lemma_extra_keys_none(views(headers@), i as nat);
            lemma_extra_keys_none(views(headers@), n as nat);
        }
    }
    assert(obj_of(res@).dom() =~= set!["name"@, "columns"@].union(
        if i0 is Some { set!["indices"@] } else { Set::empty() },
    ).union(if t0 is Some { set!["triggers"@] } else { Set::empty() }).union(extra_keys(views(headers@), n as nat)));
    let ghost xs = extra_keys(views(headers@), n as nat);
    assert forall|j: int|
        1 <= j < n && (forall|k: int| j < k < n ==> views(headers@)[k] != views(headers@)[j])
            implies #[trigger] obj_of(res@)[views(headers@)[j]] == cell_model(row@[j]) by {
        assert(1 <= j < n && j < views(headers@).len() && views(headers@)[j] == views(headers@)[j]);
        assert(xs.contains(views(headers@)[j]));
        law_extra_field_is_its_columns_cell(views(headers@), row@, n as nat, j);
    }
    assert(!xs.contains("name"@) ==> obj_of(res@)["name"@] == base["name"@]);
    assert(!xs.contains("columns"@) ==> obj_of(res@)["columns"@] == base["columns"@]);
    assert(!xs.contains("indices"@) && i0 is Some ==> obj_of(res@)["indices"@] == base["indices"@]);
    assert(!xs.contains("triggers"@) && t0 is Some ==> obj_of(res@)["triggers"@] == base["triggers"@]);
    res
}


/// The name of the relation in a row of the relation listing: the text of its
/// first cell, empty for an empty row.
pub open spec fn row_name(row: Seq<cozo::DataValue>) -> Seq<char> {
    if row.len() > 0 {
        cell_text_of(row[0])
    } else {
        Seq::empty()
    }
}

/// The number of fields of row `i` of the relation listing that its schema
/// entry takes.
pub open spec fn row_width(relations: DbRows, i: int) -> nat {
    if relations.headers@.len() <= relations.rows@[i]@.len() {
        relations.headers@.len()
    } else {
        relations.rows@[i]@.len()
    }
}

/// The first `i` column listings all succeeded.
pub open spec fn ok_before(cols: Seq<Result<DbRows, String>>, i: int) -> bool {
    forall|k: int| 0 <= k < i ==> (#[trigger] cols[k]) is Ok
}

/// `j` answers a schema request over the relation listing `relations`, the
/// relations' `names`, and the outcomes of listing their columns, indices and
/// triggers: the error of the first column listing that failed; or, when none
/// failed, `{"ok": true, "schema": [...]}` with entry `i` built from row `i`,
/// its name, its columns, and its indices and triggers when they were listed.
pub open spec fn is_schema_answer(
    j: Jv,
    relations: DbRows,
    names: Seq<Seq<char>>,
    cols: Seq<Result<DbRows, String>>,
    idx: Seq<Option<DbRows>>,
    trg: Seq<Option<DbRows>>,
) -> bool {
    ||| exists|k: int| 0 <= k < cols.len() && ok_before(cols, k) && (#[trigger] cols[k]) is Err && is_obj(j, error_map(cols[k]->Err_0@))
    ||| {
        &&& ok_before(cols, cols.len() as int)
        &&& j is Obj
        &&& obj_of(j).dom() == set!["ok"@, "schema"@]
        &&& obj_of(j)["ok"@] == Jv::Bool(true)
        &&& obj_of(j)["schema"@] matches Jv::Arr(es) && es.len() == relations.rows@.len()
            && forall|i: int| 0 <= i < es.len() ==> is_schema_entry(
                #[trigger] es[i],
                names[i],
                cols[i]->Ok_0,
                idx[i],
                trg[i],
                views(relations.headers@),
                relations.rows@[i]@,
                row_width(relations, i),
            )
    }
}

/// The answer to a schema request from its parts: the relation listing, the
/// relations' names, and the outcomes of listing each one's columns, indices
/// and triggers (one per row of the listing).
pub fn schema_from(
    relations: &DbRows,
    names: Vec<String>,
    columns: Vec<Result<DbRows, String>>,
    indices: Vec<Option<DbRows>>,
    triggers: Vec<Option<DbRows>>,
) -> (res: Json)
    requires
        names@.len() == relations.rows@.len(),
        columns@.len() == relations.rows@.len(),
        indices@.len() == relations.rows@.len(),
        triggers@.len() == relations.rows@.len(),
    ensures
        is_schema_answer(res@, *relations, views(names@), columns@, indices@, triggers@),
{
    let n = columns.len();
    let mut i: usize = 0;
    while i < n
        invariant
            i <= n,
            n == columns@.len(),
            ok_before(columns@, i as int),
        decreases n - i,
    {
        match &columns[i] {
            Err(m) => {
                let r = error_reply(m.as_str());
                assert(columns@[i as int] is Err);
                return r;
            },
            Ok(_) => {},
        }
        i = i + 1;
    }
    let ghost gn = names@;
    let ghost gc = columns@;
    let ghost gi = indices@;
    let ghost gt = triggers@;
    let mut names = names;
    let mut columns = columns;
    let mut indices = indices;
    let mut triggers = triggers;
    let mut entries: Vec<Json> = Vec::new();
    let mut i: usize = 0;
    assert(names@ =~= gn.skip(0));
    assert(columns@ =~= gc.skip(0));
    assert(indices@ =~= gi.skip(0));
    assert(triggers@ =~= gt.skip(0));
    while i < n
        invariant
            i <= n,
            n == gc.len(),
            n == relations.rows@.len(),
            gn.len() == n,
            gi.len() == n,
            gt.len() == n,
            ok_before(gc, n as int),
            names@ == gn.skip(i as int),
            columns@ == gc.skip(i as int),
            indices@ == gi.skip(i as int),
            triggers@ == gt.skip(i as int),
            entries@.len() == i,
            forall|k: int| 0 <= k < i ==> is_schema_entry(
                (#[trigger] entries@[k])@,
                gn[k]@,
                gc[k]->Ok_0,
                gi[k],
                gt[k],
                views(relations.headers@),
                relations.rows@[k]@,
                row_width(*relations, k),
            ),
        decreases n - i,
    {
        let name = names.remove(0);
        let c = columns.remove(0);
        let ix = indices.remove(0);
        let tr = triggers.remove(0);
        assert(names@ =~= gn.skip(i + 1));
        assert(columns@ =~= gc.skip(i + 1));
        assert(indices@ =~= gi.skip(i + 1));
        assert(triggers@ =~= gt.skip(i + 1));
        assert(gc[i as int] is Ok);
        let c = match c {
            Ok(c) => c,
            Err(_) => {
                assert(false);
                return Json::Null;
            },
        };
        let entry = schema_entry(name, c, ix, tr, &relations.headers, &relations.rows[i]);
        entries.push(entry);
        i = i + 1;
    }
    let ghost es = entries@;
    let res = schema_reply(entries);
    proof {
        lemma_reply_keys();
        let arr = obj_of(res@)["schema"@];
        assert(arr == arr_of(es));
        assert(views(gn) =~= gn.map_values(|s: String| s@));
        assert forall|k: int| 0 <= k < arr->Arr_0.len() implies is_schema_entry(
            #[trigger] arr->Arr_0[k],
            views(gn)[k],
            gc[k]->Ok_0,
            gi[k],
            gt[k],
            views(relations.headers@),
            relations.rows@[k]@,
            row_width(*relations, k),
        ) by {
            assert(arr->Arr_0[k] == es[k]@);
        }
    }
    res
}

/// The names of a list of (name, result) pairs.
pub open spec fn pair_names(pairs: Seq<(String, DbRows)>) -> Set<Seq<char>> {
    Set::new(|k: Seq<char>| exists|i: int| 0 <= i < pairs.len() && pairs[i].0@ == k)
}

/// `j` is an object with one field per name of `pairs`, holding the JSON of
/// that name's result.
pub open spec fn is_export_data(j: Jv, pairs: Seq<(String, DbRows)>) -> bool {
    &&& j is Obj
    &&& obj_of(j).dom() == pair_names(pairs)
    &&& forall|k: Seq<char>|
        #[trigger] obj_of(j).dom().contains(k) ==> exists|i: int|
            0 <= i < pairs.len() && pairs[i].0@ == k && is_rows_json(
                obj_of(j)[k],
                views(pairs[i].1.headers@),
                pairs[i].1.rows@,
                pairs[i].1.next@,
                Map::empty(),
            )
}

/// `j` is the reply to an export whose engine answer was `out`: `"ok": true`
/// and `"data"`, the results by relation name, or the error.
pub open spec fn is_export_reply(j: Jv, out: Result<Vec<(String, DbRows)>, String>) -> bool {
    match out {
        Ok(ps) => {
            &&& j is Obj
            &&& obj_of(j).dom() == set!["ok"@, "data"@]
            &&& obj_of(j)["ok"@] == Jv::Bool(true)
            &&& is_export_data(obj_of(j)["data"@], ps@)
        },
        Err(m) => is_obj(j, error_map(m@)),
    }
}

/// The reply to an export: `"ok": true` and `"data"`, the results by relation name.
pub fn export_reply(pairs: Vec<(String, DbRows)>) -> (res: Json)
    ensures
        res@ is Obj,
        obj_of(res@).dom() == set!["ok"@, "data"@],
        obj_of(res@)["ok"@] == Jv::Bool(true),
        is_export_data(obj_of(res@)["data"@], pairs@),
{
    let ghost ps = pairs@;
    let mut data = Json::empty_obj();
    let mut rest = pairs;
    let mut i: usize = 0;
    let n = rest.len();
    assert(rest@ =~= ps.skip(0));
    while i < n
        invariant
            n == ps.len(),
            i <= n,
            rest@ == ps.skip(i as int),
            data@ is Obj,
            obj_of(data@).dom() == pair_names(ps.take(i as int)),
            forall|k: Seq<char>|
                #[trigger] obj_of(data@).dom().contains(k) ==> exists|j: int|
                    0 <= j < i && ps[j].0@ == k && is_rows_json(
                        obj_of(data@)[k],
                        views(ps[j].1.headers@),
                        ps[j].1.rows@,
                        ps[j].1.next@,
                        Map::empty(),
                    ),
        decreases n - i,
    {
        let (name, rows) = rest.remove(0);
        let rj = rows_json(rows);
        let ghost before = obj_of(data@);
        data.set(name.as_str(), rj);
        assert(rest@ =~= ps.skip(i + 1));
        assert(pair_names(ps.take(i + 1)) =~= pair_names(ps.take(i as int)).insert(ps[i as int].0@)) by {
            assert forall|k: Seq<char>| pair_names(ps.take(i + 1)).contains(k) <==> pair_names(ps.take(i as int)).insert(ps[i as int].0@).contains(k) by {
                if pair_names(ps.take(i + 1)).contains(k) {
                    let j = choose|j: int| #![trigger ps.take(i + 1)[j]] 0 <= j < ps.take(i + 1).len() && ps.take(i + 1)[j].0@ == k;
                    if j < i {
                        assert(ps.take(i as int)[j] == ps[j]);
                    }
                }
                if pair_names(ps.take(i as int)).contains(k) {
                    let j = choose|j: int| #![trigger ps.take(i as int)[j]] 0 <= j < ps.take(i as int).len() && ps.take(i as int)[j].0@ == k;
                    assert(ps.take(i + 1)[j] == ps[j]);
                }
                if k == ps[i as int].0@ {
                    assert(ps.take(i + 1)[i as int] == ps[i as int]);
                }
            }
        }
        assert forall|k: Seq<char>| #[trigger] obj_of(data@).dom().contains(k) implies exists|j: int|
            0 <= j < i + 1 && ps[j].0@ == k && is_rows_json(
                obj_of(data@)[k],
                views(ps[j].1.headers@),
                ps[j].1.rows@,
                ps[j].1.next@,
                Map::empty(),
            ) by {
            if k != ps[i as int].0@ {
                assert(before.dom().contains(k));
            }
        }
        i = i + 1;
    }
    assert(ps.take(n as int) =~= ps);
    let mut res = Json::empty_obj();
    res.set("ok", Json::Bool(true));
    let ghost d = data@;
    res.set("data", data);
    proof { lemma_reply_keys(); }
    assert(obj_of(res@).dom() =~= set!["ok"@, "data"@]);
    res
}

/// `j` is the reply of a successful read: some result with `"ok": true` added.
pub open spec fn is_rows_ok(j: Jv) -> bool {
    exists|r: DbRows| is_rows_json(j, views(r.headers@), r.rows@, r.next@, map!["ok"@ => Jv::Bool(true)])
}

/// `j` is the reply to a failed request.
pub open spec fn is_error(j: Jv) -> bool {
    exists|m: Seq<char>| is_obj(j, error_map(m))
}

} // verus!
