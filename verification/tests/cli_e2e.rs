//! The command-line client's commands, in both modes: on a database in this
//! process (the embedded backend), and on a server (its API handlers answer the
//! request). What the client prints is `format_output` of the reply, and it
//! exits with a failure when the reply says `"ok": false`.

use std::collections::BTreeMap;

use cozo_bin::api::{
    self,
    list_endpoints, AccessLevelPayload, ApiQueryPayload, DbState, CreateIndexPayload,
    DescribePayload, ExplainPayload, RemoveRelationsPayload, RenameEntry, RenameRelationsPayload,
    ValidatePayload, STATUS_BAD_REQUEST, STATUS_OK,
};
use cozo_bin::cli::{failed, format_output, parse_params, parse_rename_pairs, split_list, watch_unavailable};
use cozo_bin::embedded::EmbeddedBackend;
use cozo_bin::json::Json;
use serde_json::Value;

fn embedded() -> EmbeddedBackend {
    EmbeddedBackend::new("mem", "", "{}").expect("failed to open an in-memory database")
}

fn server() -> DbState {
    DbState::open("mem", "", "{}").expect("failed to open an in-memory database")
}

/// What `-f json` prints of a reply, and the exit code.
fn json_cli(reply: &Json) -> (Value, i32) {
    let printed = format_output(reply, "json");
    let stdout = printed.out.join("\n");
    let code = if failed(reply) { 1 } else { 0 };
    (serde_json::from_str(&stdout).unwrap(), code)
}

fn payload(script: &str, params: &str, immutable: bool, limit: usize, offset: usize) -> ApiQueryPayload {
    ApiQueryPayload {
        script: script.to_string(),
        params: parse_params(params).unwrap(),
        immutable,
        limit,
        offset,
    }
}

fn remote_query(srv: &DbState, script: &str) -> (Value, i32) {
    json_cli(&api::api_query(&srv, &payload(script, "{}", false, 0, 0)).1)
}

fn local_query(b: &EmbeddedBackend, script: &str, params: &str, immutable: bool, limit: usize, offset: usize) -> (Value, i32) {
    let params = parse_params(params).unwrap();
    json_cli(&b.query(script, &params, immutable, limit, offset).unwrap())
}

// ── Both modes ──────────────────────────────────────────────────────────────

#[test]
fn cli_e2e_health() {
    let (val, code) = json_cli(&embedded().health().unwrap());
    assert_eq!(code, 0);
    assert_eq!(val["ok"], true);
    assert_eq!(val["status"], "healthy");
    assert_eq!(val["engine"], "mem");

    let (status, body) = api::health(&server());
    assert_eq!(status, STATUS_OK);
    let (val, code) = json_cli(&body);
    assert_eq!(code, 0);
    assert_eq!(val["ok"], true);
    assert_eq!(val["status"], "healthy");
}

#[test]
fn cli_e2e_query_simple() {
    let (val, code) = local_query(&embedded(), "?[] <- [[1, 'hello'], [2, 'world']]", "{}", false, 0, 0);
    assert_eq!(code, 0);
    assert_eq!(val["ok"], true);
    assert_eq!(val["rows"].as_array().unwrap().len(), 2);
    assert!(val["elapsed_ms"].as_u64().is_some());

    let (val, code) = remote_query(&server(), "?[] <- [[1, 'hello'], [2, 'world']]");
    assert_eq!(code, 0);
    assert_eq!(val["ok"], true);
    assert_eq!(val["rows"].as_array().unwrap().len(), 2);
    assert!(val["elapsed_ms"].as_u64().is_some());
}

#[test]
fn cli_e2e_query_with_params() {
    let (val, code) = local_query(&embedded(), "?[a] <- [[$x]]", r#"{"x": 42}"#, false, 0, 0);
    assert_eq!(code, 0);
    assert_eq!(val["rows"].as_array().unwrap()[0][0], 42);

    let srv = server();
    let (_, body) = api::api_query(&srv, &payload("?[a] <- [[$x]]", r#"{"x": 99}"#, false, 0, 0));
    let (val, code) = json_cli(&body);
    assert_eq!(code, 0);
    assert_eq!(val["rows"].as_array().unwrap()[0][0], 99);
}

#[test]
fn query_with_limit_and_offset() {
    let (val, code) = local_query(&embedded(), "?[x] <- [[1],[2],[3],[4],[5]]", "{}", false, 2, 1);
    assert_eq!(code, 0);
    assert_eq!(val["total_rows"], 5);
    assert_eq!(val["returned_rows"], 2);
}

#[test]
fn query_limit_offset() {
    let srv = server();
    let (_, body) = api::api_query(&srv, &payload("?[x] <- [[1],[2],[3],[4],[5]]", "{}", false, 2, 1));
    let (val, code) = json_cli(&body);
    assert_eq!(code, 0);
    assert_eq!(val["total_rows"], 5);
    assert_eq!(val["returned_rows"], 2);
}

#[test]
fn query_immutable() {
    let (val, code) = local_query(&embedded(), "?[] <- [[1]]", "{}", true, 0, 0);
    assert_eq!(code, 0);
    assert_eq!(val["ok"], true);
}

#[test]
fn cli_e2e_query_error() {
    let (_, code) = local_query(&embedded(), "INVALID SCRIPT", "{}", false, 0, 0);
    assert_ne!(code, 0);

    let srv = server();
    let (status, body) = api::api_query(&srv, &payload("INVALID", "{}", false, 0, 0));
    assert_eq!(status, STATUS_BAD_REQUEST);
    let (_, code) = json_cli(&body);
    assert_ne!(code, 0);
}

#[test]
fn cli_e2e_validate_valid() {
    let (val, code) = json_cli(&embedded().validate("?[] <- [[1,2,3]]").unwrap());
    assert_eq!(code, 0);
    assert_eq!(val["valid"], true);

    let (_, body) = api::validate_query(&server(), &ValidatePayload { script: "?[] <- [[1]]".to_string() });
    let (val, code) = json_cli(&body);
    assert_eq!(code, 0);
    assert_eq!(val["valid"], true);
}

#[test]
fn cli_e2e_validate_invalid() {
    let (val, code) = json_cli(&embedded().validate("NOT VALID").unwrap());
    assert_eq!(code, 0);
    assert_eq!(val["valid"], false);

    let (_, body) = api::validate_query(&server(), &ValidatePayload { script: "GARBAGE".to_string() });
    let (val, code) = json_cli(&body);
    assert_eq!(code, 0);
    assert_eq!(val["valid"], false);
}

#[test]
fn cli_e2e_explain() {
    let (val, code) = json_cli(&embedded().explain("?[] <- [[1]]").unwrap());
    assert_eq!(code, 0);
    assert_eq!(val["ok"], true);
    assert!(val["rows"].as_array().is_some());

    let (_, body) = api::explain_query(&server(), &ExplainPayload { script: "?[] <- [[1]]".to_string() });
    let (val, code) = json_cli(&body);
    assert_eq!(code, 0);
    assert_eq!(val["ok"], true);
}

#[test]
fn relations_empty() {
    let (val, code) = json_cli(&embedded().list_relations().unwrap());
    assert_eq!(code, 0);
    assert_eq!(val["ok"], true);
    assert_eq!(val["rows"].as_array().unwrap().len(), 0);
}

#[test]
fn cli_e2e_fixed_rules() {
    let (val, code) = json_cli(&embedded().list_fixed_rules().unwrap());
    assert_eq!(code, 0);
    assert_eq!(val["ok"], true);
    assert!(val["rows"].as_array().unwrap().len() > 10);

    let (_, body) = api::list_fixed_rules(&server());
    let (val, code) = json_cli(&body);
    assert_eq!(code, 0);
    assert!(val["rows"].as_array().unwrap().len() > 10);
}

#[test]
fn cli_e2e_running() {
    let (val, code) = json_cli(&embedded().list_running().unwrap());
    assert_eq!(code, 0);
    assert_eq!(val["ok"], true);

    let (_, body) = api::list_running(&server());
    let (val, code) = json_cli(&body);
    assert_eq!(code, 0);
    assert_eq!(val["ok"], true);
}

#[test]
fn schema_empty() {
    let (val, code) = json_cli(&embedded().full_schema().unwrap());
    assert_eq!(code, 0);
    assert_eq!(val["ok"], true);
    assert_eq!(val["schema"].as_array().unwrap().len(), 0);
}

#[test]
fn cli_e2e_compact() {
    let (val, code) = json_cli(&embedded().compact().unwrap());
    assert_eq!(code, 0);
    assert_eq!(val["ok"], true);

    let (_, body) = api::compact_db(&server());
    let (val, code) = json_cli(&body);
    assert_eq!(code, 0);
    assert_eq!(val["ok"], true);
}

#[test]
fn endpoints_embedded_mode() {
    let (val, code) = json_cli(&embedded().list_endpoints().unwrap());
    assert_eq!(code, 0);
    assert_eq!(val["ok"], true);
    assert!(val["message"].as_str().is_some());
}

#[test]
fn endpoints() {
    let (status, body) = list_endpoints();
    assert_eq!(status, STATUS_OK);
    let (val, code) = json_cli(&body);
    assert_eq!(code, 0, "endpoints should work in remote mode");
    assert!(val.is_object());
}

#[test]
fn watch_fails_in_embedded_mode() {
    let stderr = watch_unavailable();
    assert!(stderr.contains("remote") || stderr.contains("Watch"), "stderr: {}", stderr);
}

// ── Output formats ──────────────────────────────────────────────────────────

#[test]
fn format_table() {
    let r = embedded().query("?[x, y] <- [[1, 'a'], [2, 'b']]", &BTreeMap::new(), false, 0, 0).unwrap();
    let printed = format_output(&r, "table");
    let stdout = printed.out.join("\n");
    assert!(stdout.contains("x"), "stdout: {}", stdout);
    assert!(stdout.contains("y"), "stdout: {}", stdout);
    assert!(stdout.contains("a"), "stdout: {}", stdout);
}

#[test]
fn format_csv() {
    let r = embedded()
        .query("?[x, y] <- [[1, 'hello'], [2, 'world']]", &BTreeMap::new(), false, 0, 0)
        .unwrap();
    assert!(!failed(&r));
    let stdout = format_output(&r, "csv").out.join("\n");
    let lines: Vec<&str> = stdout.trim().lines().collect();
    assert!(lines.len() >= 3, "expected header + 2 rows, got: {:?}", lines);
    assert!(lines[0].contains(","), "header should have commas: {}", lines[0]);
}

#[test]
fn format_csv_remote() {
    let srv = server();
    let (status, body) = api::api_query(&srv, &payload("?[x, y] <- [[1, 'a'], [2, 'b']]", "{}", false, 0, 0));
    assert_eq!(status, STATUS_OK);
    assert!(!failed(&body));
    let stdout = format_output(&body, "csv").out.join("\n");
    let lines: Vec<&str> = stdout.trim().lines().collect();
    assert!(lines.len() >= 3);
    assert!(lines[0].contains(","));
}

#[test]
fn format_jsonl() {
    let r = embedded().query("?[x, y] <- [[1, 'a'], [2, 'b']]", &BTreeMap::new(), false, 0, 0).unwrap();
    let stdout = format_output(&r, "jsonl").out.join("\n");
    let lines: Vec<&str> = stdout.trim().lines().collect();
    assert_eq!(lines.len(), 2, "expected 2 JSONL lines, got: {:?}", lines);
    for line in &lines {
        let val: Value = serde_json::from_str(line).unwrap();
        assert!(val["x"].is_number());
        assert!(val["y"].is_string());
    }
}

#[test]
fn format_jsonl_remote() {
    let srv = server();
    let (_, body) = api::api_query(&srv, &payload("?[x, y] <- [[1, 'a'], [2, 'b']]", "{}", false, 0, 0));
    let stdout = format_output(&body, "jsonl").out.join("\n");
    let lines: Vec<&str> = stdout.trim().lines().collect();
    assert_eq!(lines.len(), 2);
    for line in &lines {
        let _: Value = serde_json::from_str(line).unwrap();
    }
}

// ── Server mode, several commands ───────────────────────────────────────────

#[test]
fn relations_and_schema() {
    let srv = server();

    let (val, _) = json_cli(&api::list_relations(&srv).1);
    assert_eq!(val["rows"].as_array().unwrap().len(), 0);

    remote_query(&srv, ":create test_rel {id: Int => val: String}");
    remote_query(&srv, r#"?[id, val] <- [[1, "a"], [2, "b"]] :put test_rel {id => val}"#);

    let (val, code) = json_cli(&api::list_relations(&srv).1);
    assert_eq!(code, 0);
    assert_eq!(val["rows"].as_array().unwrap().len(), 1);

    let (val, code) = json_cli(&api::list_columns(&srv, "test_rel").1);
    assert_eq!(code, 0);
    assert!(val["rows"].as_array().unwrap().len() >= 2);

    let (val, code) = json_cli(&api::full_schema(&srv).1);
    assert_eq!(code, 0);
    assert_eq!(val["ok"], true);
    assert_eq!(val["schema"].as_array().unwrap().len(), 1);
}

#[test]
fn full_lifecycle_remote() {
    let srv = server();

    let (_, code) = remote_query(&srv, ":create cities {name: String => pop: Int}");
    assert_eq!(code, 0);
    let (_, code) = remote_query(
        &srv,
        r#"?[name, pop] <- [["NYC", 8000000], ["LA", 4000000], ["Chicago", 2700000]] :put cities {name => pop}"#,
    );
    assert_eq!(code, 0);

    let (val, code) = remote_query(&srv, "?[name, pop] := *cities{name, pop}, pop > 3000000");
    assert_eq!(code, 0);
    assert_eq!(val["rows"].as_array().unwrap().len(), 2);

    let index = CreateIndexPayload { index_name: "idx_pop".to_string(), columns: split_list("pop") };
    let (_, code) = json_cli(&api::create_index(&srv, "cities", &index).1);
    assert_eq!(code, 0);

    let (val, code) = json_cli(&api::list_indices(&srv, "cities").1);
    assert_eq!(code, 0);
    let rows = val["rows"].as_array().unwrap();
    let has_idx = rows.iter().any(|r| {
        r.as_array()
            .map(|a| a.iter().any(|v| v.as_str() == Some("idx_pop")))
            .unwrap_or(false)
    });
    assert!(has_idx, "index not found: {:?}", rows);

    let (_, code) = json_cli(&api::drop_index(&srv, "cities", "idx_pop").1);
    assert_eq!(code, 0);

    let (val, code) = json_cli(&api::show_triggers(&srv, "cities").1);
    assert_eq!(code, 0);
    assert_eq!(val["ok"], true);

    let describe = DescribePayload { description: Some("Cities of the world".to_string()) };
    let (_, code) = json_cli(&api::describe_relation(&srv, "cities", &describe).1);
    assert_ne!(code, 0);

    let remove = RemoveRelationsPayload { relations: vec!["cities".to_string()] };
    let (val, code) = json_cli(&api::remove_relations(&srv, &remove).1);
    assert_eq!(code, 0);
    assert_eq!(val["ok"], true);

    let (val, _) = json_cli(&api::list_relations(&srv).1);
    assert_eq!(val["rows"].as_array().unwrap().len(), 0);
}

#[test]
fn rename_remote() {
    let srv = server();
    remote_query(&srv, ":create alpha {x: Int}");
    remote_query(&srv, "?[x] <- [[1],[2],[3]] :put alpha {x}");

    let pairs = parse_rename_pairs(&["alpha:beta".to_string()]).unwrap();
    let renames = RenameRelationsPayload {
        renames: pairs.into_iter().map(|(from, to)| RenameEntry { from, to }).collect(),
    };
    let (_, code) = json_cli(&api::rename_relations(&srv, &renames).1);
    assert_eq!(code, 0);

    let (val, _) = json_cli(&api::list_columns(&srv, "alpha").1);
    assert_eq!(val["ok"], false);

    let (val, _) = remote_query(&srv, "?[count(x)] := *beta{x}");
    assert_eq!(val["rows"].as_array().unwrap()[0][0], 3);
}

#[test]
fn access_level_remote() {
    let srv = server();
    remote_query(&srv, ":create guarded {k: Int}");
    remote_query(&srv, "?[k] <- [[1]] :put guarded {k}");

    let read_only = AccessLevelPayload { level: "read_only".to_string(), relations: vec!["guarded".to_string()] };
    let (_, code) = json_cli(&api::set_access_level(&srv, &read_only).1);
    assert_eq!(code, 0);

    let (_, code) = remote_query(&srv, "?[k] <- [[2]] :put guarded {k}");
    assert_ne!(code, 0);

    let (_, body) = api::api_query(&srv, &payload("?[k] := *guarded{k}", "{}", true, 0, 0));
    let (val, code) = json_cli(&body);
    assert_eq!(code, 0);
    assert_eq!(val["ok"], true);

    let normal = AccessLevelPayload { level: "normal".to_string(), relations: vec!["guarded".to_string()] };
    let (_, code) = json_cli(&api::set_access_level(&srv, &normal).1);
    assert_eq!(code, 0);
}
