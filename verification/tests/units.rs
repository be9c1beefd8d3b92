//! Concrete cases of the library's pieces: paging, scripts, requests, texts,
//! replies and the client's formatting.

use std::collections::BTreeMap;

use cozo_bin::api::{
    self,
    backend_answer, failed_answer, health_failed_answer, list_endpoints, rename_pairs, DbState,
    RenameEntry, STATUS_BAD_REQUEST, STATUS_INTERNAL_ERROR, STATUS_OK,
};
use cozo_bin::cli::{
    cell_text, csv_quote, failed, file_json_result, format_output, get, params_result,
    params_value_result, parse_file_json, parse_params, parse_params_value,
    parse_rename_pair, parse_rename_pairs, split_list, sse_payloads, stream_items, watch_unavailable,
    file_text, StreamItem,
};
use cozo_bin::embedded::{bad_data, EmbeddedBackend};
use cozo_bin::json::Json;
use cozo_bin::paging::paginate;
use cozo_bin::remote::{body_text, decimal_text, parse_failure_message, read_reply, HttpMethod, RemoteBackend};
use cozo_bin::reply::{error_reply, ok_reply, rows_json, strings_json};
use cozo_bin::db::DbRows;
use cozo_bin::script::{
    access_level_script, columns_script, create_index_script, describe_script,
    describe_script_single_quoted, drop_index_script, escape, explain_script, indices_script,
    remove_script, rename_script, triggers_script,
};
use cozo_bin::text::{join, trim_end_char};
use serde_json::Value;

fn strings(xs: &[&str]) -> Vec<String> {
    xs.iter().map(|s| s.to_string()).collect()
}

fn parse(text: &str) -> Value {
    serde_json::from_str(text).unwrap()
}

// ── Paging ──────────────────────────────────────────────────────────────────

#[test]
fn paging_limit_and_offset() {
    let mut rows = vec![1, 2, 3, 4, 5];
    let (total, returned) = paginate(&mut rows, 2, 1);
    assert_eq!((total, returned), (5, 2));
    assert_eq!(rows, vec![2, 3]);
}

#[test]
fn paging_without_limit_or_offset_keeps_everything() {
    let mut rows = vec![1, 2, 3];
    assert_eq!(paginate(&mut rows, 0, 0), (3, 3));
    assert_eq!(rows, vec![1, 2, 3]);
}

#[test]
fn paging_offset_past_end_empties() {
    let mut rows = vec![1, 2, 3];
    assert_eq!(paginate(&mut rows, 0, 100), (3, 0));
    assert!(rows.is_empty());
}

#[test]
fn paging_limit_larger_than_rows() {
    let mut rows = vec![1, 2, 3];
    assert_eq!(paginate(&mut rows, 10, 2), (3, 1));
    assert_eq!(rows, vec![3]);
}

#[test]
fn paging_pages_tile_the_rows() {
    let all: Vec<u32> = (0..7).collect();
    let mut seen = Vec::new();
    let mut offset = 0;
    while offset < all.len() {
        let mut page = all.clone();
        paginate(&mut page, 3, offset);
        seen.extend(page);
        offset += 3;
    }
    assert_eq!(seen, all);
}

// ── Scripts ─────────────────────────────────────────────────────────────────

#[test]
fn system_scripts() {
    assert_eq!(explain_script("?[] <- [[1]]"), "::explain { ?[] <- [[1]] }");
    assert_eq!(columns_script("people"), "::columns people");
    assert_eq!(indices_script("people"), "::indices people");
    assert_eq!(triggers_script("people"), "::show_triggers people");
    assert_eq!(remove_script(&strings(&["a", "b"])), "::remove a, b");
    assert_eq!(
        rename_script(&[("a".to_string(), "b".to_string()), ("c".to_string(), "d".to_string())]),
        "::rename a -> b, c -> d"
    );
    assert_eq!(
        access_level_script("read_only", &strings(&["x", "y"])),
        "::access_level read_only x, y"
    );
    assert_eq!(
        create_index_script("people", "idx_age", &strings(&["age", "city"])),
        "::index create people:idx_age { age, city }"
    );
    assert_eq!(drop_index_script("people", "idx_age"), "::index drop people:idx_age");
}

#[test]
fn describe_scripts_escape_their_quotes() {
    assert_eq!(describe_script("people", None), "::describe people");
    assert_eq!(
        describe_script("people", Some("say \"hi\" \\ bye")),
        "::describe people \"say \\\"hi\\\" \\\\ bye\""
    );
    assert_eq!(describe_script_single_quoted("people", &None), "::describe people");
    assert_eq!(
        describe_script_single_quoted("people", &Some("it's".to_string())),
        "::describe people 'it\\'s'"
    );
}

#[test]
fn escape_round_trips_by_reading_backslashes() {
    let s = "a\"b\\c";
    let e = escape(s, '"', true);
    assert_eq!(e, "a\\\"b\\\\c");
    // read back: a backslash stands for the character after it
    let mut back = String::new();
    let mut chars = e.chars();
    while let Some(c) = chars.next() {
        if c == '\\' {
            back.push(chars.next().unwrap());
        } else {
            back.push(c);
        }
    }
    assert_eq!(back, s);
}

// ── Requests of the remote backend ──────────────────────────────────────────

#[test]
fn remote_base_url_drops_trailing_slashes() {
    let r = RemoteBackend::new("http://h:1//", "");
    assert_eq!(r.base_url(), "http://h:1");
    let req = r.health();
    assert_eq!(req.method, HttpMethod::Get);
    assert_eq!(req.url, "http://h:1/api/health");
    assert!(req.auth.is_none());
    assert!(req.body.is_none());
    assert_eq!(r.mode_name(), "remote");
}

#[test]
fn remote_sends_the_token_when_there_is_one() {
    let r = RemoteBackend::new("http://h:1", "secret");
    let req = r.list_relations();
    assert_eq!(req.auth.as_deref(), Some("secret"));
    assert_eq!(req.url, "http://h:1/api/relations");
}

#[test]
fn remote_paths() {
    let r = RemoteBackend::new("http://h", "");
    assert_eq!(r.list_columns("p").url, "http://h/api/relations/p/columns");
    assert_eq!(r.list_indices("p").url, "http://h/api/relations/p/indices");
    assert_eq!(r.show_triggers("p").url, "http://h/api/relations/p/triggers");
    assert_eq!(r.full_schema().url, "http://h/api/schema");
    assert_eq!(r.list_running().url, "http://h/api/running");
    let k = r.kill_running(42);
    assert_eq!(k.method, HttpMethod::Delete);
    assert_eq!(k.url, "http://h/api/running/42");
    assert_eq!(r.list_fixed_rules().url, "http://h/api/fixed-rules");
    let d = r.drop_index("p", "i");
    assert_eq!(d.method, HttpMethod::Delete);
    assert_eq!(d.url, "http://h/api/relations/p/indices/i");
    assert_eq!(r.export_relations(&strings(&["a", "b"])).url, "http://h/export/a,b");
    assert_eq!(r.list_endpoints().url, "http://h/api/endpoints");
    assert_eq!(r.changes("p").url, "http://h/changes/p");
    let i = r.import_relations(&parse("{\"a\": 1}"));
    assert_eq!(i.method, HttpMethod::Put);
    assert_eq!(i.url, "http://h/import");
    assert_eq!(i.body.unwrap().to_outside(), parse("{\"a\": 1}"));
}

#[test]
fn remote_query_body() {
    let r = RemoteBackend::new("http://h", "");
    let mut params = BTreeMap::new();
    params.insert("x".to_string(), parse("42"));
    let req = r.query("?[a] <- [[$x]]", &params, true, 5, 2);
    assert_eq!(req.method, HttpMethod::Post);
    assert_eq!(req.url, "http://h/api/query");
    let body = req.body.unwrap().to_outside();
    assert_eq!(
        body,
        parse("{\"script\": \"?[a] <- [[$x]]\", \"params\": {\"x\": 42}, \"immutable\": true, \"limit\": 5, \"offset\": 2}")
    );
}

#[test]
fn remote_bodies() {
    let r = RemoteBackend::new("http://h", "");
    assert_eq!(r.explain("q").body.unwrap().to_outside(), parse("{\"script\": \"q\"}"));
    assert_eq!(r.validate("q").body.unwrap().to_outside(), parse("{\"script\": \"q\"}"));
    assert_eq!(r.compact().body.unwrap().to_outside(), parse("{}"));
    assert_eq!(
        r.describe_relation("p", None).body.unwrap().to_outside(),
        parse("{\"description\": null}")
    );
    assert_eq!(
        r.describe_relation("p", Some("d")).body.unwrap().to_outside(),
        parse("{\"description\": \"d\"}")
    );
    assert_eq!(
        r.remove_relations(&strings(&["a"])).body.unwrap().to_outside(),
        parse("{\"relations\": [\"a\"]}")
    );
    assert_eq!(
        r.rename_relations(&[("a".to_string(), "b".to_string())]).body.unwrap().to_outside(),
        parse("{\"renames\": [{\"from\": \"a\", \"to\": \"b\"}]}")
    );
    assert_eq!(
        r.set_access_level("hidden", &strings(&["a"])).body.unwrap().to_outside(),
        parse("{\"level\": \"hidden\", \"relations\": [\"a\"]}")
    );
    assert_eq!(
        r.create_index("p", "i", &strings(&["c"])).body.unwrap().to_outside(),
        parse("{\"index_name\": \"i\", \"columns\": [\"c\"]}")
    );
    assert_eq!(r.backup("/tmp/b").body.unwrap().to_outside(), parse("{\"path\": \"/tmp/b\"}"));
    assert_eq!(
        r.import_from_backup("/tmp/b", &strings(&["a", "b"])).body.unwrap().to_outside(),
        parse("{\"path\": \"/tmp/b\", \"relations\": [\"a\", \"b\"]}")
    );
    let batch = r.batch(&[("q1".to_string(), BTreeMap::new())], true);
    assert_eq!(
        batch.body.unwrap().to_outside(),
        parse("{\"queries\": [{\"script\": \"q1\", \"params\": {}}], \"transactional\": true}")
    );
}

#[test]
fn decimal_texts() {
    assert_eq!(decimal_text(0), "0");
    assert_eq!(decimal_text(7), "7");
    assert_eq!(decimal_text(1234), "1234");
    assert_eq!(decimal_text(u64::MAX), u64::MAX.to_string());
}

#[test]
fn parse_failure_text() {
    assert_eq!(parse_failure_message("eof"), "Failed to parse response: eof");
}

// ── Texts of the client ─────────────────────────────────────────────────────

#[test]
fn csv_fields() {
    assert_eq!(csv_quote("plain"), "plain");
    assert_eq!(csv_quote("a,b"), "\"a,b\"");
    assert_eq!(csv_quote("x\"y"), "\"x\"\"y\"");
    assert_eq!(csv_quote("line\nbreak"), "\"line\nbreak\"");
    assert_eq!(csv_quote(""), "");
}

#[test]
fn comma_lists_are_trimmed() {
    assert_eq!(split_list(" a, b ,c"), strings(&["a", "b", "c"]));
    assert_eq!(split_list("one"), strings(&["one"]));
    assert_eq!(split_list("a,,b"), strings(&["a", "", "b"]));
}

#[test]
fn rename_pairs_from_the_command_line() {
    assert_eq!(parse_rename_pair("a:b"), Ok(("a".to_string(), "b".to_string())));
    assert_eq!(
        parse_rename_pair("ab"),
        Err("Invalid rename pair 'ab'. Expected 'from:to'".to_string())
    );
    assert_eq!(
        parse_rename_pair("a:b:c"),
        Err("Invalid rename pair 'a:b:c'. Expected 'from:to'".to_string())
    );
    assert_eq!(
        parse_rename_pairs(&strings(&["a:b", "c:d"])),
        Ok(vec![("a".to_string(), "b".to_string()), ("c".to_string(), "d".to_string())])
    );
    assert_eq!(
        parse_rename_pairs(&strings(&["a:b", "bad"])),
        Err("Invalid rename pair 'bad'. Expected 'from:to'".to_string())
    );
}

#[test]
fn params_and_files() {
    let p = parse_params("{\"x\": 42}").unwrap();
    assert_eq!(p.get("x"), Some(&parse("42")));
    assert!(parse_params("{").unwrap_err().starts_with("Invalid params JSON: "));
    assert!(parse_params("[1]").unwrap_err().starts_with("Invalid params JSON: "));
    assert_eq!(parse_file_json("[1, 2]").unwrap(), parse("[1, 2]"));
    assert!(parse_file_json("nope").unwrap_err().starts_with("Invalid JSON in file: "));
}

#[test]
fn parse_outcomes() {
    let mut m = BTreeMap::new();
    m.insert("x".to_string(), parse("1"));
    assert_eq!(params_result(Ok(m.clone())), Ok(m));
    assert_eq!(params_result(Err("eof".to_string())), Err("Invalid params JSON: eof".to_string()));
    assert_eq!(file_json_result(Ok(parse("[1]"))), Ok(parse("[1]")));
    assert_eq!(file_json_result(Err("bad".to_string())), Err("Invalid JSON in file: bad".to_string()));
}

#[test]
fn outside_values_of_each_kind() {
    let mut j = Json::empty_obj();
    j.set("n", Json::Null);
    j.set("a", Json::Arr(vec![Json::UInt(1), Json::Bool(false), Json::text("s")]));
    j.set("e", Json::Ext(parse("-2.5")));
    assert_eq!(j.to_outside(), parse("{\"n\": null, \"a\": [1, false, \"s\"], \"e\": -2.5}"));
}

#[test]
fn event_stream_payloads() {
    let body = "event: put\ndata: {\"a\":1}\r\n\ndata: hi\nid: 3";
    assert_eq!(sse_payloads(body), strings(&["{\"a\":1}", "hi"]));
    assert!(sse_payloads("").is_empty());
}

#[test]
fn fixed_texts() {
    assert_eq!(watch_unavailable(), "Watch is only available in remote mode (--remote)");
    assert_eq!(bad_data("people", "boom"), "Bad data for 'people': boom");
    assert_eq!(join(&strings(&["a", "b", "c"]), ", "), "a, b, c");
    assert_eq!(join(&[], ", "), "");
    assert_eq!(trim_end_char("x///", '/'), "x");
}

// ── JSON and replies ────────────────────────────────────────────────────────

#[test]
fn json_set_then_get() {
    let mut j = Json::empty_obj();
    j.set("a", Json::UInt(1));
    j.set("b", Json::text("x"));
    j.set("a", Json::Bool(true));
    assert!(matches!(get(&j, "a"), Some(Json::Bool(true))));
    assert!(matches!(get(&j, "b"), Some(Json::Str(s)) if s == "x"));
    assert!(get(&j, "c").is_none());
    assert_eq!(j.to_outside(), parse("{\"a\": true, \"b\": \"x\"}"));
    assert_eq!(j.duplicate().to_outside(), j.to_outside());
}

#[test]
fn replies() {
    assert_eq!(ok_reply().to_outside(), parse("{\"ok\": true}"));
    assert_eq!(error_reply("boom").to_outside(), parse("{\"ok\": false, \"message\": \"boom\"}"));
    assert_eq!(strings_json(&strings(&["a"])).to_outside(), parse("[\"a\"]"));
    let r = DbRows {
        headers: strings(&["x", "y"]),
        rows: vec![vec![cozo::DataValue::from(1i64), cozo::DataValue::from("a")]],
        next: Json::Null,
    };
    assert_eq!(
        rows_json(r).to_outside(),
        parse("{\"headers\": [\"x\", \"y\"], \"rows\": [[1, \"a\"]], \"next\": null}")
    );
}

#[test]
fn failure_is_ok_false() {
    assert!(failed(&error_reply("x")));
    assert!(!failed(&ok_reply()));
    assert!(!failed(&Json::empty_obj()));
    assert!(!failed(&Json::UInt(3)));
}

#[test]
fn cell_texts() {
    assert_eq!(cell_text(&Json::text("s"), "null"), "s");
    assert_eq!(cell_text(&Json::Null, "null"), "null");
    assert_eq!(cell_text(&Json::Null, ""), "");
    assert_eq!(cell_text(&Json::Bool(false), "null"), "false");
    assert_eq!(cell_text(&Json::UInt(12), "null"), "12");
    assert_eq!(cell_text(&Json::Arr(vec![Json::UInt(1)]), "null"), "[1]");
}

#[test]
fn answers() {
    let (code, body) = backend_answer(Ok(error_reply("no")));
    assert_eq!(code, STATUS_BAD_REQUEST);
    assert!(failed(&body));
    let (code, _) = backend_answer(Ok(ok_reply()));
    assert_eq!(code, STATUS_OK);
    let (code, body) = backend_answer(Err("gone".to_string()));
    assert_eq!(code, STATUS_INTERNAL_ERROR);
    assert_eq!(body.to_outside(), parse("{\"ok\": false, \"message\": \"gone\"}"));
    let (code, body) = failed_answer("join");
    assert_eq!(code, STATUS_INTERNAL_ERROR);
    assert_eq!(body.to_outside(), parse("{\"ok\": false, \"message\": \"join\"}"));
    let (code, body) = health_failed_answer("join");
    assert_eq!(code, STATUS_INTERNAL_ERROR);
    assert_eq!(
        body.to_outside(),
        parse("{\"ok\": false, \"status\": \"error\", \"message\": \"join\"}")
    );
}

#[test]
fn endpoint_listing() {
    let (code, body) = list_endpoints();
    assert_eq!(code, STATUS_OK);
    let v = body.to_outside();
    assert_eq!(v["ok"], true);
    let eps = v["endpoints"].as_array().unwrap();
    assert_eq!(eps.len(), 26);
    assert_eq!(eps[0]["method"], "GET");
    assert_eq!(eps[0]["path"], "/api/health");
    assert_eq!(eps[10]["path"], "/api/query");
    assert_eq!(eps[10]["body"]["limit"], 0);
    assert_eq!(eps[25]["path"], "/text-query");
}

#[test]
fn rename_entries_become_pairs() {
    let entries = vec![
        RenameEntry { from: "a".to_string(), to: "b".to_string() },
        RenameEntry { from: "c".to_string(), to: "d".to_string() },
    ];
    assert_eq!(
        rename_pairs(&entries),
        vec![("a".to_string(), "b".to_string()), ("c".to_string(), "d".to_string())]
    );
}

// ── Formatting of replies ───────────────────────────────────────────────────

fn table_reply() -> Json {
    let mut j = Json::empty_obj();
    j.set("headers", Json::Arr(vec![Json::text("x"), Json::text("y")]));
    j.set(
        "rows",
        Json::Arr(vec![
            Json::Arr(vec![Json::UInt(1), Json::text("a,b")]),
            Json::Arr(vec![Json::Null, Json::text("q\"")]),
        ]),
    );
    j.set("elapsed_ms", Json::UInt(3));
    j.set("total_rows", Json::UInt(5));
    j.set("returned_rows", Json::UInt(2));
    j
}

#[test]
fn csv_output() {
    let p = format_output(&table_reply(), "csv");
    assert_eq!(p.out, strings(&["x,y", "1,\"a,b\"", ",\"q\"\"\""]));
    assert!(p.err.is_empty());
}

#[test]
fn jsonl_output() {
    let p = format_output(&table_reply(), "jsonl");
    assert_eq!(p.out.len(), 2);
    assert_eq!(parse(&p.out[0]), parse("{\"x\": 1, \"y\": \"a,b\"}"));
    assert_eq!(parse(&p.out[1]), parse("{\"x\": null, \"y\": \"q\\\"\"}"));
}

#[test]
fn table_output_notes() {
    let p = format_output(&table_reply(), "table");
    assert_eq!(p.out.len(), 1);
    assert!(p.out[0].contains("a,b"));
    assert_eq!(p.err, strings(&["Elapsed: 3ms", "Showing 2 of 5 total rows"]));
}

#[test]
fn json_output_and_error_note() {
    let p = format_output(&error_reply("bad"), "json");
    assert_eq!(p.out.len(), 1);
    assert_eq!(parse(&p.out[0]), parse("{\"ok\": false, \"message\": \"bad\"}"));
    assert_eq!(p.err, strings(&["Error: bad"]));
    let p = format_output(&error_reply("bad"), "table");
    assert_eq!(p.err, strings(&["Error: bad"]));
    let p = format_output(&ok_reply(), "csv");
    assert_eq!(p.out.len(), 1);
    assert!(p.err.is_empty());
}

// ── Opening databases ───────────────────────────────────────────────────────

#[test]
fn engines_that_are_not_built_are_refused() {
    assert_eq!(
        EmbeddedBackend::new("rocksdb", "/tmp/none", "{}").err(),
        Some("database engine 'rocksdb' not supported (maybe not compiled in)".to_string())
    );
    assert!(DbState::open("no-such-engine", "/tmp/none", "{}").is_err());
    assert!(DbState::open("mem", "", "{}").is_ok());
}

#[test]
fn embedded_endpoints_point_to_the_server() {
    let b = EmbeddedBackend::new("mem", "", "{}").unwrap();
    let v = b.list_endpoints().unwrap().to_outside();
    assert_eq!(v["ok"], true);
    assert_eq!(v["message"], "Endpoints are only available in remote mode (--remote)");
}

#[test]
fn api_query_pages_and_counts() {
    let st = DbState::open("mem", "", "{}").unwrap();
    let payload = cozo_bin::api::ApiQueryPayload {
        script: "?[x] <- [[1], [2], [3], [4], [5]]".to_string(),
        params: BTreeMap::new(),
        immutable: true,
        limit: 2,
        offset: 1,
    };
    let (code, body) = api::api_query(&st, &payload);
    assert_eq!(code, STATUS_OK);
    let v = body.to_outside();
    assert_eq!(v["ok"], true);
    assert_eq!(v["total_rows"], 5);
    assert_eq!(v["returned_rows"], 2);
    assert_eq!(v["offset"], 1);
    assert_eq!(v["limit"], 2);
    assert_eq!(v["rows"], parse("[[2], [3]]"));
}

#[test]
fn api_schema_lists_each_relation() {
    let st = DbState::open("mem", "", "{}").unwrap();
    let create = cozo_bin::api::ApiQueryPayload {
        script: ":create t {a: Int => b: String}".to_string(),
        params: BTreeMap::new(),
        immutable: false,
        limit: 0,
        offset: 0,
    };
    assert_eq!(api::api_query(&st, &create).0, STATUS_OK);
    let (code, body) = api::full_schema(&st);
    assert_eq!(code, STATUS_OK);
    let v = body.to_outside();
    assert_eq!(v["ok"], true);
    let schema = v["schema"].as_array().unwrap();
    assert_eq!(schema.len(), 1);
    assert_eq!(schema[0]["name"], "t");
    assert!(schema[0]["columns"]["rows"].as_array().is_some());
}

// ── Text of embedded results ────────────────────────────────────────────────

fn embedded_cells() -> Json {
    let b = EmbeddedBackend::new("mem", "", "{}").unwrap();
    b.query(
        "?[a, b, c, d] <- [['x,y', null, 1, 'plain'], ['q\"', 2.5, -3, true]]",
        &BTreeMap::new(),
        true,
        0,
        0,
    )
    .unwrap()
}

#[test]
fn embedded_csv_cells_are_their_text() {
    let p = format_output(&embedded_cells(), "csv");
    assert_eq!(p.out, strings(&["a,b,c,d", "\"q\"\"\",2.5,-3,true", "\"x,y\",,1,plain"]));
}

#[test]
fn embedded_table_cells_are_their_text() {
    let p = format_output(&embedded_cells(), "table");
    assert_eq!(p.out.len(), 1);
    assert!(p.out[0].contains("x,y"));
    assert!(p.out[0].contains("plain"));
    assert!(!p.out[0].contains("\"plain\""));
    assert!(p.out[0].contains("null"));
    assert!(p.out[0].contains("-3"));
}

#[test]
fn outside_cells_of_each_kind() {
    assert_eq!(cell_text(&Json::Ext(parse("\"s\"")), "null"), "s");
    assert_eq!(cell_text(&Json::Ext(Value::Null), "-"), "-");
    assert_eq!(cell_text(&Json::Ext(parse("-2.5")), "null"), "-2.5");
    assert_eq!(cell_text(&Json::Ext(parse("[1,\"a\"]")), "null"), "[1,\"a\"]");
    assert_eq!(cell_text(&Json::Arr(vec![Json::Null, Json::Bool(true)]), "null"), "[null,true]");
}

#[test]
fn jsonl_lines_are_compact_records() {
    let mut j = Json::empty_obj();
    j.set("headers", Json::Arr(vec![Json::text("x"), Json::text("y")]));
    j.set(
        "rows",
        Json::Arr(vec![
            Json::Arr(vec![Json::UInt(1), Json::text("a")]),
            Json::Arr(vec![Json::UInt(2), Json::text("b")]),
        ]),
    );
    let p = format_output(&j, "jsonl");
    assert_eq!(p.out, strings(&["{\"x\":1,\"y\":\"a\"}", "{\"x\":2,\"y\":\"b\"}"]));
    let p = format_output(&ok_reply(), "jsonl");
    assert_eq!(p.out, strings(&["{\"ok\":true}"]));
}

#[test]
fn json_output_is_indented() {
    let p = format_output(&table_reply(), "json");
    assert_eq!(p.out, vec![serde_json::to_string_pretty(&table_reply().to_outside()).unwrap()]);
    let p = format_output(&ok_reply(), "table");
    assert_eq!(p.out, strings(&["{\n  \"ok\": true\n}"]));
}

#[test]
fn paging_note_compares_outside_counts() {
    let mut j = table_reply();
    j.set("total_rows", Json::Ext(parse("-1")));
    j.set("returned_rows", Json::Ext(parse("-1")));
    j.set("elapsed_ms", Json::Ext(parse("2.5")));
    let p = format_output(&j, "table");
    assert_eq!(p.err, strings(&["Elapsed: 2.5ms"]));
    j.set("returned_rows", Json::UInt(2));
    let p = format_output(&j, "table");
    assert_eq!(p.err, strings(&["Elapsed: 2.5ms", "Showing 2 of -1 total rows"]));
}

#[test]
fn remote_params_are_sent_as_given() {
    let r = RemoteBackend::new("http://h", "");
    let v = parse_params_value("[1, 2]").unwrap();
    let req = r.query_value("q", v, true, 0, 0);
    assert_eq!(req.body.unwrap().to_outside()["params"], parse("[1, 2]"));
    assert_eq!(
        parse_params_value("{").err().map(|m| m.starts_with("Invalid params JSON: ")),
        Some(true)
    );
    assert_eq!(params_value_result(Err("e".to_string())), Err("Invalid params JSON: e".to_string()));
    let req = r.run_value("s", parse("{\"n\": 2}"));
    assert_eq!(req.url, "http://h/api/query");
    assert_eq!(req.body.unwrap().to_outside(), parse("{\"script\": \"s\", \"params\": {\"n\": 2}}"));
    let mut m = BTreeMap::new();
    m.insert("a".to_string(), parse("1"));
    let req = r.query("q", &m, false, 0, 0);
    assert_eq!(req.body.unwrap().to_outside()["params"], parse("{\"a\": 1}"));
}

#[test]
fn import_refuses_bad_payloads() {
    let b = EmbeddedBackend::new("mem", "", "{}").unwrap();
    let v = b.import_relations(&parse("[1]")).unwrap().to_outside();
    assert_eq!(v, parse("{\"ok\": false, \"message\": \"payload must be a JSON object\"}"));
    let v = b.import_relations(&parse("{\"people\": 3}")).unwrap().to_outside();
    assert_eq!(v["ok"], false);
    assert!(v["message"].as_str().unwrap().starts_with("Bad data for 'people': "));
}

#[test]
fn replies_are_read_as_json() {
    assert_eq!(read_reply("{\"ok\": true}"), Ok(parse("{\"ok\": true}")));
    let e = read_reply("not json").unwrap_err();
    assert!(e.starts_with("Failed to parse response: "));
}

#[test]
fn request_bodies_are_compact_json() {
    let r = RemoteBackend::new("http://h", "");
    assert_eq!(body_text(&r.explain("q")), Some("{\"script\":\"q\"}".to_string()));
    assert_eq!(body_text(&r.health()), None);
}

#[test]
fn stream_payloads_are_read_as_json_where_they_parse() {
    let items = stream_items("data: {\"a\": 1}\nevent: x\ndata: plain text\n");
    assert_eq!(items.len(), 2);
    match &items[0] {
        StreamItem::Value(v) => assert_eq!(v, &parse("{\"a\": 1}")),
        StreamItem::Text(_) => panic!("expected a value"),
    }
    match &items[1] {
        StreamItem::Text(t) => assert_eq!(t, "plain text"),
        StreamItem::Value(_) => panic!("expected text"),
    }
}

#[test]
fn exported_files_are_indented_json() {
    assert_eq!(file_text(&ok_reply()), Ok("{\n  \"ok\": true\n}".to_string()));
}
