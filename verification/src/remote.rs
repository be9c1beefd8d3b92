//! The remote backend: each request becomes one HTTP request to a running
//! CozoDB server. This module decides the method, URL, headers and JSON body;
//! sending it and reading the reply is left to the caller.

use std::collections::BTreeMap;
use vstd::prelude::*;
use crate::json::{Json, Jv, obj_of, is_obj, str_arr, value_of};
use crate::text::{trim_end_char, strip_trailing, join, joined, views};
use crate::reply::strings_json;

verus! {

/// The HTTP methods that the server's API uses.
#[derive(PartialEq, Eq, Structural, Clone, Copy, Debug)]
pub enum HttpMethod {
    Get,
    Post,
    Put,
    Delete,
}

/// One request to the server: method, full URL, the `x-cozo-auth` header when
/// there is a token, and the JSON body (sent with `Content-Type:
/// application/json`) when there is one.
pub struct HttpRequest {
    pub method: HttpMethod,
    pub url: String,
    pub auth: Option<String>,
    pub body: Option<Json>,
}

/// A backend that talks to a CozoDB server over HTTP.
pub struct RemoteBackend {
    base_url: String,
    auth: String,
}

/// What `serde_json::Value::Object` of the entries of a map of parameters (name
/// to JSON value) is.
pub uninterp spec fn params_object_of(params: Map<String, serde_json::Value>) -> serde_json::Value;

/// `serde_json::Value::Object` of the entries of `params`, cloned: the value
/// named [`params_object_of`] of the map.
#[verifier::external_body]
fn params_value(params: &BTreeMap<String, serde_json::Value>) -> (res: serde_json::Value)
    ensures
        res == params_object_of(params@),
{
    serde_json::Value::Object(params.clone().into_iter().collect())
}

/// `data` as a request body, kept as it is.
fn outside_json(data: &serde_json::Value) -> (res: Json)
    ensures
        res@ == Jv::Ext(*data),
{
    Json::Ext(crate::json::outside_clone(data))
}

/// The decimal digits of `n`.
pub open spec fn decimal(n: nat) -> Seq<char>
    decreases n,
{
    if n < 10 {
        seq![digit_char(n)]
    } else {
        decimal(n / 10).push(digit_char(n % 10))
    }
}

/// The character of the decimal digit `d`.
pub open spec fn digit_char(d: nat) -> char {
    if d == 0 { '0' }
    else if d == 1 { '1' }
    else if d == 2 { '2' }
    else if d == 3 { '3' }
    else if d == 4 { '4' }
    else if d == 5 { '5' }
    else if d == 6 { '6' }
    else if d == 7 { '7' }
    else if d == 8 { '8' }
    else { '9' }
}

fn digit(d: u64) -> (c: char)
    requires
        d < 10,
    ensures
        c == digit_char(d as nat),
{
    if d == 0 { '0' }
    else if d == 1 { '1' }
    else if d == 2 { '2' }
    else if d == 3 { '3' }
    else if d == 4 { '4' }
    else if d == 5 { '5' }
    else if d == 6 { '6' }
    else if d == 7 { '7' }
    else if d == 8 { '8' }
    else { '9' }
}

/// `n` written in decimal, as `format!("{}", n)` writes it.
pub fn decimal_text(n: u64) -> (res: String)
    ensures
        res@ == decimal(n as nat),
    decreases n,
{
    if n < 10 {
        let mut s = String::new();
        crate::text::push_char(&mut s, digit(n));
        assert(s@ =~= decimal(n as nat));
        s
    } else {
        let mut s = decimal_text(n / 10);
        crate::text::push_char(&mut s, digit(n % 10));
        s
    }
}

/// The text `Failed to parse response: <error>`: how a reply that is not JSON
/// is reported.
pub fn parse_failure_message(error: &str) -> (res: String)
    ensures
        res@ == "Failed to parse response: "@ + error@,
{
    let mut r = String::from_str("Failed to parse response: ");
    r.append(error);
    r
}

/// The JSON of a server's reply text, or `Failed to parse response: <error>`.
pub fn read_reply(text: &str) -> (res: Result<serde_json::Value, String>)
    ensures
        match crate::cli::json_value_parse(text@) {
            Ok(v) => res == Ok::<serde_json::Value, String>(v),
            Err(e) => res matches Err(m) && m@ == "Failed to parse response: "@ + e,
        },
{
    match crate::cli::parse_json_value(text) {
        Ok(v) => Ok(v),
        Err(e) => Err(parse_failure_message(e.as_str())),
    }
}

/// The text sent as the body of a request: the compact JSON text of its body,
/// when it has one.
pub fn body_text(req: &HttpRequest) -> (res: Option<String>)
    ensures
        req.body matches Some(b) ==> (res matches Some(t) && t@ == crate::cli::compact_json_of(value_of(b@))),
        req.body is None ==> res is None,
{
    match &req.body {
        Some(b) => Some(crate::cli::compact_text(&b.to_outside())),
        None => None,
    }
}

/// `j` is a JSON array of `n` JSON objects, the `i`-th of which has the fields
/// `f(i)`.
pub open spec fn is_obj_arr(j: Jv, n: nat, f: spec_fn(int) -> Map<Seq<char>, Jv>) -> bool {
    j is Arr && j->Arr_0.len() == n && forall|i: int| 0 <= i < n ==> is_obj(#[trigger] j->Arr_0[i], f(i))
}


impl RemoteBackend {
    /// The server URL without trailing slashes.
    pub closed spec fn base(&self) -> Seq<char> {
        self.base_url@
    }

    /// The auth token, empty for none.
    pub closed spec fn token(&self) -> Seq<char> {
        self.auth@
    }

    /// A backend for the server at `url` (trailing slashes dropped) that sends
    /// `auth` as its token.
    pub fn new(url: &str, auth: &str) -> (res: Self)
        ensures
            res.base() == strip_trailing(url@, '/'),
            res.token() == auth@,
    {
        RemoteBackend { base_url: trim_end_char(url, '/'), auth: String::from_str(auth) }
    }

    /// The server URL without trailing slashes.
    pub fn base_url(&self) -> (res: &str)
        ensures
            res@ == self.base(),
    {
        self.base_url.as_str()
    }

    /// `req` is `method` on the server path `path`, with the token when there is
    /// one.
    pub open spec fn is_request(&self, req: HttpRequest, method: HttpMethod, path: Seq<char>) -> bool {
        &&& req.method == method
        &&& req.url@ == self.base() + path
        &&& (self.token().len() == 0 ==> req.auth is None)
        &&& (self.token().len() > 0 ==> (req.auth matches Some(a) && a@ == self.token()))
    }

    /// `req` is `method` on `path` without a body.
    pub open spec fn is_bodiless(&self, req: HttpRequest, method: HttpMethod, path: Seq<char>) -> bool {
        self.is_request(req, method, path) && req.body is None
    }

    /// `req` is `method` on `path` with a JSON object body whose fields are `fields`.
    pub open spec fn is_with_fields(&self, req: HttpRequest, method: HttpMethod, path: Seq<char>, fields: Map<Seq<char>, Jv>) -> bool {
        self.is_request(req, method, path) && (req.body matches Some(b) && is_obj(b@, fields))
    }

    fn request(&self, method: HttpMethod, path: &str, body: Option<Json>) -> (res: HttpRequest)
        ensures
            self.is_request(res, method, path@),
            res.body == body,
    {
        let mut url = self.base_url.clone();
        url.append(path);
        let auth = if self.auth.as_str().is_empty() {
            None
        } else {
            Some(self.auth.clone())
        };
        HttpRequest { method, url, auth, body }
    }

    /// `POST /api/query` with `{"script", "params", "immutable", "limit",
    /// "offset"}`, the parameters the map `params` as a JSON object.
    pub fn query(
        &self,
        script: &str,
        params: &BTreeMap<String, serde_json::Value>,
        immutable: bool,
        limit: usize,
        offset: usize,
    ) -> (res: HttpRequest)
        ensures
            self.is_request(res, HttpMethod::Post, "/api/query"@),
            res.body matches Some(b) && b@ is Obj && obj_of(b@).dom() == set!["script"@, "params"@, "immutable"@, "limit"@, "offset"@]
                && obj_of(b@)["script"@] == Jv::Str(script@)
                && obj_of(b@)["params"@] == Jv::Ext(params_object_of(params@))
                && obj_of(b@)["immutable"@] == Jv::Bool(immutable)
                && obj_of(b@)["limit"@] == Jv::UInt(limit as nat)
                && obj_of(b@)["offset"@] == Jv::UInt(offset as nat),
    {
        let p = params_value(params);
        self.query_value(script, p, immutable, limit, offset)
    }

    /// `POST /api/query` with `{"script", "params", "immutable", "limit",
    /// "offset"}`, the parameters the JSON value `params` as it is.
    pub fn query_value(
        &self,
        script: &str,
        params: serde_json::Value,
        immutable: bool,
        limit: usize,
        offset: usize,
    ) -> (res: HttpRequest)
        ensures
            self.is_request(res, HttpMethod::Post, "/api/query"@),
            res.body matches Some(b) && b@ is Obj && obj_of(b@).dom() == set!["script"@, "params"@, "immutable"@, "limit"@, "offset"@]
                && obj_of(b@)["script"@] == Jv::Str(script@)
                && obj_of(b@)["params"@] == Jv::Ext(params)
                && obj_of(b@)["immutable"@] == Jv::Bool(immutable)
                && obj_of(b@)["limit"@] == Jv::UInt(limit as nat)
                && obj_of(b@)["offset"@] == Jv::UInt(offset as nat),
    {
        let mut b = Json::empty_obj();
        b.set("script", Json::text(script));
        b.set("params", Json::Ext(params));
        b.set("immutable", Json::Bool(immutable));
        b.set("limit", Json::UInt(limit as u64));
        b.set("offset", Json::UInt(offset as u64));
        proof { lemma_request_keys(); }
        assert(obj_of(b@).dom() =~= set!["script"@, "params"@, "immutable"@, "limit"@, "offset"@]);
        self.request(HttpMethod::Post, "/api/query", Some(b))
    }

    /// `POST /api/query` with `{"script", "params"}`, as a script file is run:
    /// the parameters the JSON value `params` as it is.
    pub fn run_value(&self, script: &str, params: serde_json::Value) -> (res: HttpRequest)
        ensures
            self.is_with_fields(res, HttpMethod::Post, "/api/query"@, map!["script"@ => Jv::Str(script@), "params"@ => Jv::Ext(params)]),
    {
        let ghost p = params;
        let mut b = Json::empty_obj();
        b.set("script", Json::text(script));
        b.set("params", Json::Ext(params));
        proof { lemma_request_keys(); }
        assert(obj_of(b@) =~= map!["script"@ => Jv::Str(script@), "params"@ => Jv::Ext(p)]);
        self.request(HttpMethod::Post, "/api/query", Some(b))
    }

    fn script_request(&self, path: &str, script: &str) -> (res: HttpRequest)
        ensures
            self.is_with_fields(res, HttpMethod::Post, path@, map!["script"@ => Jv::Str(script@)]),
    {
        let mut b = Json::empty_obj();
        b.set("script", Json::text(script));
        assert(obj_of(b@) =~= map!["script"@ => Jv::Str(script@)]);
        self.request(HttpMethod::Post, path, Some(b))
    }

    /// `POST /api/explain` with `{"script"}`.
    pub fn explain(&self, script: &str) -> (res: HttpRequest)
        ensures
            self.is_with_fields(res, HttpMethod::Post, "/api/explain"@, map!["script"@ => Jv::Str(script@)]),
    {
        self.script_request("/api/explain", script)
    }

    /// `POST /api/validate` with `{"script"}`.
    pub fn validate(&self, script: &str) -> (res: HttpRequest)
        ensures
            self.is_with_fields(res, HttpMethod::Post, "/api/validate"@, map!["script"@ => Jv::Str(script@)]),
    {
        self.script_request("/api/validate", script)
    }

    /// `POST /api/batch` with `{"queries": [{"script", "params"}, ...], "transactional"}`.
    pub fn batch(&self, queries: &[(String, BTreeMap<String, serde_json::Value>)], transactional: bool) -> (res: HttpRequest)
        ensures
            self.is_request(res, HttpMethod::Post, "/api/batch"@),
            res.body matches Some(b) && b@ is Obj && obj_of(b@).dom() == set!["queries"@, "transactional"@]
                && obj_of(b@)["transactional"@] == Jv::Bool(transactional)
                && obj_of(b@)["queries"@] is Arr
                && obj_of(b@)["queries"@]->Arr_0.len() == queries@.len()
                && forall|i: int| 0 <= i < queries@.len() ==> {
                    let q = #[trigger] obj_of(b@)["queries"@]->Arr_0[i];
                    &&& q is Obj
                    &&& obj_of(q).dom() == set!["script"@, "params"@]
                    &&& obj_of(q)["script"@] == Jv::Str(queries@[i].0@)
                    &&& obj_of(q)["params"@] == Jv::Ext(params_object_of(queries@[i].1@))
                },
    {
        proof { lemma_request_keys(); }
        let mut qs: Vec<Json> = Vec::new();
        let mut i: usize = 0;
        while i < queries.len()
            invariant
                i <= queries@.len(),
                qs@.len() == i,
                forall|k: int| 0 <= k < i ==> {
                    let q = (#[trigger] qs@[k])@;
                    &&& q is Obj
                    &&& obj_of(q).dom() == set!["script"@, "params"@]
                    &&& obj_of(q)["script"@] == Jv::Str(queries@[k].0@)
                    &&& obj_of(q)["params"@] == Jv::Ext(params_object_of(queries@[k].1@))
                },
            decreases queries@.len() - i,
        {
            proof { lemma_request_keys(); }
            let mut q = Json::empty_obj();
            q.set("script", Json::Str(queries[i].0.clone()));
            q.set("params", Json::Ext(params_value(&queries[i].1)));
            assert(obj_of(q@).dom() =~= set!["script"@, "params"@]);
            qs.push(q);
            i = i + 1;
        }
        let ghost qv = qs@;
        let arr = Json::Arr(qs);
        let mut b = Json::empty_obj();
        b.set("queries", arr);
        b.set("transactional", Json::Bool(transactional));
        assert(obj_of(b@).dom() =~= set!["queries"@, "transactional"@]);
        assert forall|k: int| 0 <= k < queries@.len() implies #[trigger] obj_of(b@)["queries"@]->Arr_0[k] == qv[k]@ by {}
        self.request(HttpMethod::Post, "/api/batch", Some(b))
    }

    fn get(&self, path: &str) -> (res: HttpRequest)
        ensures
            self.is_bodiless(res, HttpMethod::Get, path@),
    {
        self.request(HttpMethod::Get, path, None)
    }

    fn relation_path(relation: &str, suffix: &str) -> (res: String)
        ensures
            res@ == "/api/relations/"@ + relation@ + suffix@,
    {
        let mut p = String::from_str("/api/relations/");
        p.append(relation);
        p.append(suffix);
        p
    }

    /// `GET /api/health`.
    pub fn health(&self) -> (res: HttpRequest)
        ensures
            self.is_bodiless(res, HttpMethod::Get, "/api/health"@),
    {
        self.get("/api/health")
    }

    /// `GET /api/relations`.
    pub fn list_relations(&self) -> (res: HttpRequest)
        ensures
            self.is_bodiless(res, HttpMethod::Get, "/api/relations"@),
    {
        self.get("/api/relations")
    }

    /// `GET /api/relations/<relation>/columns`.
    pub fn list_columns(&self, relation: &str) -> (res: HttpRequest)
        ensures
            self.is_bodiless(res, HttpMethod::Get, "/api/relations/"@ + relation@ + "/columns"@),
    {
        let p = Self::relation_path(relation, "/columns");
        self.get(p.as_str())
    }

    /// `GET /api/relations/<relation>/indices`.
    pub fn list_indices(&self, relation: &str) -> (res: HttpRequest)
        ensures
            self.is_bodiless(res, HttpMethod::Get, "/api/relations/"@ + relation@ + "/indices"@),
    {
        let p = Self::relation_path(relation, "/indices");
        self.get(p.as_str())
    }

    /// `GET /api/relations/<relation>/triggers`.
    pub fn show_triggers(&self, relation: &str) -> (res: HttpRequest)
        ensures
            self.is_bodiless(res, HttpMethod::Get, "/api/relations/"@ + relation@ + "/triggers"@),
    {
        let p = Self::relation_path(relation, "/triggers");
        self.get(p.as_str())
    }

    /// `POST /api/relations/<relation>/describe` with `{"description"}`, `null`
    /// when there is none.
    pub fn describe_relation(&self, relation: &str, description: Option<&str>) -> (res: HttpRequest)
        ensures
            self.is_with_fields(
                res,
                HttpMethod::Post,
                "/api/relations/"@ + relation@ + "/describe"@,
                map!["description"@ => match description {
                    Some(d) => Jv::Str(d@),
                    None => Jv::Null,
                }],
            ),
    {
        let d = match description {
            Some(d) => Json::text(d),
            None => Json::Null,
        };
        let mut b = Json::empty_obj();
        b.set("description", d);
        assert(obj_of(b@) =~= map!["description"@ => match description {
            Some(d) => Jv::Str(d@),
            None => Jv::Null,
        }]);
        let p = Self::relation_path(relation, "/describe");
        self.request(HttpMethod::Post, p.as_str(), Some(b))
    }

    /// `GET /api/schema`.
    pub fn full_schema(&self) -> (res: HttpRequest)
        ensures
            self.is_bodiless(res, HttpMethod::Get, "/api/schema"@),
    {
        self.get("/api/schema")
    }

    /// `GET /api/running`.
    pub fn list_running(&self) -> (res: HttpRequest)
        ensures
            self.is_bodiless(res, HttpMethod::Get, "/api/running"@),
    {
        self.get("/api/running")
    }

    /// `DELETE /api/running/<id>`.
    pub fn kill_running(&self, id: u64) -> (res: HttpRequest)
        ensures
            self.is_bodiless(res, HttpMethod::Delete, "/api/running/"@ + decimal(id as nat)),
    {
        let mut p = String::from_str("/api/running/");
        let d = decimal_text(id);
        p.append(d.as_str());
        self.request(HttpMethod::Delete, p.as_str(), None)
    }

    /// `GET /api/fixed-rules`.
    pub fn list_fixed_rules(&self) -> (res: HttpRequest)
        ensures
            self.is_bodiless(res, HttpMethod::Get, "/api/fixed-rules"@),
    {
        self.get("/api/fixed-rules")
    }

    /// `POST /api/compact` with `{}`.
    pub fn compact(&self) -> (res: HttpRequest)
        ensures
            self.is_with_fields(res, HttpMethod::Post, "/api/compact"@, Map::empty()),
    {
        let b = Json::empty_obj();
        self.request(HttpMethod::Post, "/api/compact", Some(b))
    }

    /// `POST /api/remove-relations` with `{"relations": [...]}`.
    pub fn remove_relations(&self, relations: &[String]) -> (res: HttpRequest)
        ensures
            self.is_with_fields(
                res,
                HttpMethod::Post,
                "/api/remove-relations"@,
                map!["relations"@ => str_arr(views(relations@))],
            ),
    {
        let mut b = Json::empty_obj();
        b.set("relations", strings_json(relations));
        assert(obj_of(b@) =~= map!["relations"@ => str_arr(views(relations@))]);
        self.request(HttpMethod::Post, "/api/remove-relations", Some(b))
    }

    /// `POST /api/rename-relations` with `{"renames": [{"from", "to"}, ...]}`.
    pub fn rename_relations(&self, renames: &[(String, String)]) -> (res: HttpRequest)
        ensures
            self.is_request(res, HttpMethod::Post, "/api/rename-relations"@),
            res.body matches Some(b) && is_obj(
                b@,
                map!["renames"@ => obj_of(b@)["renames"@]],
            ) && is_obj_arr(
                obj_of(b@)["renames"@],
                renames@.len(),
                |i: int| map!["from"@ => Jv::Str(renames@[i].0@), "to"@ => Jv::Str(renames@[i].1@)],
            ),
    {
        proof { lemma_request_keys(); }
        let mut es: Vec<Json> = Vec::new();
        let mut i: usize = 0;
        while i < renames.len()
            invariant
                i <= renames@.len(),
                es@.len() == i,
                forall|k: int| 0 <= k < i ==> is_obj(
                    (#[trigger] es@[k])@,
                    map!["from"@ => Jv::Str(renames@[k].0@), "to"@ => Jv::Str(renames@[k].1@)],
                ),
            decreases renames@.len() - i,
        {
            proof { lemma_request_keys(); }
            let mut e = Json::empty_obj();
            e.set("from", Json::Str(renames[i].0.clone()));
            e.set("to", Json::Str(renames[i].1.clone()));
            assert(obj_of(e@) =~= map!["from"@ => Jv::Str(renames@[i as int].0@), "to"@ => Jv::Str(renames@[i as int].1@)]);
            es.push(e);
            i = i + 1;
        }
        let ghost ev = es@;
        let arr = Json::Arr(es);
        let mut b = Json::empty_obj();
        b.set("renames", arr);
        assert(obj_of(b@) =~= map!["renames"@ => obj_of(b@)["renames"@]]);
        assert forall|k: int| 0 <= k < renames@.len() implies #[trigger] obj_of(b@)["renames"@]->Arr_0[k] == ev[k]@ by {}
        self.request(HttpMethod::Post, "/api/rename-relations", Some(b))
    }

    /// `POST /api/access-level` with `{"level", "relations"}`.
    pub fn set_access_level(&self, level: &str, relations: &[String]) -> (res: HttpRequest)
        ensures
            self.is_request(res, HttpMethod::Post, "/api/access-level"@),
            res.body matches Some(b) && is_obj(b@, map!["level"@ => Jv::Str(level@), "relations"@ => str_arr(views(relations@))]),
    {
        let mut b = Json::empty_obj();
        b.set("level", Json::text(level));
        b.set("relations", strings_json(relations));
        proof { lemma_request_keys(); }
        assert(obj_of(b@) =~= map!["level"@ => Jv::Str(level@), "relations"@ => str_arr(views(relations@))]);
        self.request(HttpMethod::Post, "/api/access-level", Some(b))
    }

    /// `POST /api/relations/<relation>/indices` with `{"index_name", "columns"}`.
    pub fn create_index(&self, relation: &str, index_name: &str, columns: &[String]) -> (res: HttpRequest)
        ensures
            self.is_request(res, HttpMethod::Post, "/api/relations/"@ + relation@ + "/indices"@),
            res.body matches Some(b) && is_obj(b@, map!["index_name"@ => Jv::Str(index_name@), "columns"@ => str_arr(views(columns@))]),
    {
        let mut b = Json::empty_obj();
        b.set("index_name", Json::text(index_name));
        b.set("columns", strings_json(columns));
        proof { lemma_request_keys(); }
        assert(obj_of(b@) =~= map!["index_name"@ => Jv::Str(index_name@), "columns"@ => str_arr(views(columns@))]);
        let p = Self::relation_path(relation, "/indices");
        let r = self.request(HttpMethod::Post, p.as_str(), Some(b));
        assert(r.url@ =~= self.base() + "/api/relations/"@ + relation@ + "/indices"@);
        r
    }

    /// `DELETE /api/relations/<relation>/indices/<index>`.
    pub fn drop_index(&self, relation: &str, index_name: &str) -> (res: HttpRequest)
        ensures
            self.is_bodiless(res, HttpMethod::Delete, "/api/relations/"@ + relation@ + "/indices/"@ + index_name@),
    {
        let mut p = Self::relation_path(relation, "/indices/");
        p.append(index_name);
        self.request(HttpMethod::Delete, p.as_str(), None)
    }

    /// `GET /export/<r1>,<r2>,...`.
    pub fn export_relations(&self, relations: &[String]) -> (res: HttpRequest)
        ensures
            self.is_bodiless(res, HttpMethod::Get, "/export/"@ + joined(views(relations@), ","@)),
    {
        let mut p = String::from_str("/export/");
        let names = join(relations, ",");
        p.append(names.as_str());
        self.get(p.as_str())
    }

    /// `PUT /import` with `data` as the body.
    pub fn import_relations(&self, data: &serde_json::Value) -> (res: HttpRequest)
        ensures
            self.is_request(res, HttpMethod::Put, "/import"@),
            res.body matches Some(b) && b@ == Jv::Ext(*data),
    {
        self.request(HttpMethod::Put, "/import", Some(outside_json(data)))
    }

    /// `POST /backup` with `{"path"}`.
    pub fn backup(&self, path: &str) -> (res: HttpRequest)
        ensures
            self.is_with_fields(res, HttpMethod::Post, "/backup"@, map!["path"@ => Jv::Str(path@)]),
    {
        let mut b = Json::empty_obj();
        b.set("path", Json::text(path));
        assert(obj_of(b@) =~= map!["path"@ => Jv::Str(path@)]);
        self.request(HttpMethod::Post, "/backup", Some(b))
    }

    /// `POST /import-from-backup` with `{"path", "relations"}`.
    pub fn import_from_backup(&self, path: &str, relations: &[String]) -> (res: HttpRequest)
        ensures
            self.is_request(res, HttpMethod::Post, "/import-from-backup"@),
            res.body matches Some(b) && is_obj(b@, map!["path"@ => Jv::Str(path@), "relations"@ => str_arr(views(relations@))]),
    {
        let mut b = Json::empty_obj();
        b.set("path", Json::text(path));
        b.set("relations", strings_json(relations));
        proof { lemma_request_keys(); }
        assert(obj_of(b@) =~= map!["path"@ => Jv::Str(path@), "relations"@ => str_arr(views(relations@))]);
        self.request(HttpMethod::Post, "/import-from-backup", Some(b))
    }

    /// `GET /api/endpoints`.
    pub fn list_endpoints(&self) -> (res: HttpRequest)
        ensures
            self.is_bodiless(res, HttpMethod::Get, "/api/endpoints"@),
    {
        self.get("/api/endpoints")
    }

    /// `GET /changes/<relation>`: the event stream of changes to `relation`.
    pub fn changes(&self, relation: &str) -> (res: HttpRequest)
        ensures
            self.is_bodiless(res, HttpMethod::Get, "/changes/"@ + relation@),
    {
        let mut p = String::from_str("/changes/");
        p.append(relation);
        self.get(p.as_str())
    }

    /// `"remote"`.
    pub fn mode_name(&self) -> (res: &'static str)
        ensures
            res@ == "remote"@,
    {
        "remote"
    }
}

/// The texts of the field names that request bodies use.
pub proof fn lemma_request_keys()
    ensures
        "script"@ == seq!['s', 'c', 'r', 'i', 'p', 't'],
        "params"@ == seq!['p', 'a', 'r', 'a', 'm', 's'],
        "immutable"@ == seq!['i', 'm', 'm', 'u', 't', 'a', 'b', 'l', 'e'],
        "limit"@ == seq!['l', 'i', 'm', 'i', 't'],
        "offset"@ == seq!['o', 'f', 'f', 's', 'e', 't'],
        "queries"@ == seq!['q', 'u', 'e', 'r', 'i', 'e', 's'],
        "transactional"@ == seq!['t', 'r', 'a', 'n', 's', 'a', 'c', 't', 'i', 'o', 'n', 'a', 'l'],
        "from"@ == seq!['f', 'r', 'o', 'm'],
        "to"@ == seq!['t', 'o'],
        "level"@ == seq!['l', 'e', 'v', 'e', 'l'],
        "relations"@ == seq!['r', 'e', 'l', 'a', 't', 'i', 'o', 'n', 's'],
        "index_name"@ == seq!['i', 'n', 'd', 'e', 'x', '_', 'n', 'a', 'm', 'e'],
        "columns"@ == seq!['c', 'o', 'l', 'u', 'm', 'n', 's'],
        "path"@ == seq!['p', 'a', 't', 'h'],
{
    reveal_strlit("script");
    reveal_strlit("params");
    reveal_strlit("immutable");
    reveal_strlit("limit");
    reveal_strlit("offset");
    reveal_strlit("queries");
    reveal_strlit("transactional");
    reveal_strlit("from");
    reveal_strlit("to");
    reveal_strlit("level");
    reveal_strlit("relations");
    reveal_strlit("index_name");
    reveal_strlit("columns");
    reveal_strlit("path");
}

/// Law: the base URL ends in no slash, and the URL given is the base URL
/// followed only by slashes; trimming it again changes nothing.
pub proof fn law_base_url_trimmed(url: Seq<char>)
    ensures
        strip_trailing(url, '/').len() == 0 || strip_trailing(url, '/').last() != '/',
        url.len() >= strip_trailing(url, '/').len(),
        url.take(strip_trailing(url, '/').len() as int) == strip_trailing(url, '/'),
        forall|i: int| strip_trailing(url, '/').len() <= i < url.len() ==> url[i] == '/',
        strip_trailing(strip_trailing(url, '/'), '/') == strip_trailing(url, '/'),
    decreases url.len(),
{
    if url.len() > 0 && url.last() == '/' {
        law_base_url_trimmed(url.drop_last());
        let t = strip_trailing(url, '/');
        assert forall|i: int| t.len() <= i < url.len() implies url[i] == '/' by {
            if i < url.len() - 1 {
                assert(url.drop_last()[i] == url[i]);
            }
        }
        assert(url.drop_last().take(t.len() as int) =~= url.take(t.len() as int));
    } else {
        assert(url.take(url.len() as int) =~= url);
    }
}

} // verus!
