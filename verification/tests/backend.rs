//! Every backend request on the embedded backend, against a real in-memory
//! database.

use std::collections::BTreeMap;

use cozo_bin::embedded::EmbeddedBackend;
use serde_json::Value;

fn new_embedded() -> EmbeddedBackend {
    EmbeddedBackend::new("mem", "", "{}").expect("failed to create in-memory db")
}

fn no_params() -> BTreeMap<String, Value> {
    BTreeMap::new()
}

fn query(b: &EmbeddedBackend, script: &str, immutable: bool, limit: usize, offset: usize) -> Value {
    b.query(script, &no_params(), immutable, limit, offset).unwrap().to_outside()
}

/// Seed a test relation with some data.
fn seed_data(b: &EmbeddedBackend) {
    let r = b.query(
        ":create people {name: String => age: Int, city: String}",
        &no_params(),
        false,
        0,
        0,
    );
    assert!(r.is_ok());
    let val = r.unwrap().to_outside();
    assert_ne!(val.get("ok"), Some(&Value::Bool(false)), "create failed: {}", val);

    let r = b.query(
        r#"?[name, age, city] <- [
            ["Alice", 30, "NYC"],
            ["Bob", 25, "LA"],
            ["Charlie", 35, "NYC"],
            ["Diana", 28, "Chicago"],
            ["Eve", 40, "LA"]
        ]
        :put people {name => age, city}"#,
        &no_params(),
        false,
        0,
        0,
    );
    assert!(r.is_ok());
    let val = r.unwrap().to_outside();
    assert_ne!(val.get("ok"), Some(&Value::Bool(false)), "put failed: {}", val);
}

#[test]
fn test_health() {
    let b = new_embedded();
    let r = b.health().unwrap().to_outside();
    assert_eq!(r["ok"], true);
    assert_eq!(r["status"], "healthy");
    assert_eq!(r["mode"], "embedded");
    assert_eq!(r["engine"], "mem");
    assert!(r["relation_count"].as_u64().is_some());
    assert!(r["fixed_rule_count"].as_u64().unwrap() > 0);
}

#[test]
fn test_query_simple() {
    let b = new_embedded();
    let r = query(&b, "?[] <- [[1, 'hello'], [2, 'world']]", false, 0, 0);
    assert_eq!(r["ok"], true);
    let rows = r["rows"].as_array().unwrap();
    assert_eq!(rows.len(), 2);
    assert!(r["elapsed_ms"].as_u64().is_some());
    assert_eq!(r["total_rows"], 2);
    assert_eq!(r["returned_rows"], 2);
}

#[test]
fn test_query_with_params() {
    let b = new_embedded();
    let mut params = BTreeMap::new();
    params.insert("x".to_string(), Value::from(42));
    params.insert("y".to_string(), Value::from("hello"));
    let r = b.query("?[a, b] <- [[$x, $y]]", &params, false, 0, 0).unwrap().to_outside();
    assert_eq!(r["ok"], true);
    let rows = r["rows"].as_array().unwrap();
    assert_eq!(rows[0][0], 42);
    assert_eq!(rows[0][1], "hello");
}

#[test]
fn test_query_immutable_prevents_writes() {
    let b = new_embedded();
    seed_data(&b);
    let r = query(&b, "?[name, age] := *people{name, age}", true, 0, 0);
    assert_eq!(r["ok"], true);
    assert_eq!(r["rows"].as_array().unwrap().len(), 5);

    let r = query(
        &b,
        r#"?[name, age, city] <- [["Zara", 22, "SF"]] :put people {name => age, city}"#,
        true,
        0,
        0,
    );
    assert_eq!(r["ok"], false);
}

#[test]
fn test_query_limit_offset() {
    let b = new_embedded();
    let r = query(&b, "?[x] <- [[1], [2], [3], [4], [5]]", false, 2, 1);
    assert_eq!(r["ok"], true);
    assert_eq!(r["total_rows"], 5);
    assert_eq!(r["returned_rows"], 2);
    assert_eq!(r["offset"], 1);
    assert_eq!(r["limit"], 2);
    let rows = r["rows"].as_array().unwrap();
    assert_eq!(rows.len(), 2);
}

#[test]
fn test_query_limit_only() {
    let b = new_embedded();
    let r = query(&b, "?[x] <- [[1], [2], [3], [4], [5]]", false, 3, 0);
    assert_eq!(r["total_rows"], 5);
    assert_eq!(r["returned_rows"], 3);
}

#[test]
fn test_query_offset_past_end() {
    let b = new_embedded();
    let r = query(&b, "?[x] <- [[1], [2], [3]]", false, 0, 100);
    assert_eq!(r["total_rows"], 3);
    assert_eq!(r["returned_rows"], 0);
}

#[test]
fn test_query_error_bad_script() {
    let b = new_embedded();
    let r = query(&b, "THIS IS NOT VALID", false, 0, 0);
    assert_eq!(r["ok"], false);
    assert!(r["message"].as_str().is_some());
    assert!(r["elapsed_ms"].as_u64().is_some());
}

#[test]
fn test_explain() {
    let b = new_embedded();
    seed_data(&b);
    let r = b.explain("?[name] := *people{name}").unwrap().to_outside();
    assert_eq!(r["ok"], true);
    assert!(r["rows"].as_array().is_some());
    assert!(r["headers"].as_array().is_some());
}

#[test]
fn test_explain_invalid_query() {
    let b = new_embedded();
    let r = b.explain("GARBAGE QUERY").unwrap().to_outside();
    assert_eq!(r["ok"], false);
}

#[test]
fn test_validate_valid_query() {
    let b = new_embedded();
    let r = b.validate("?[] <- [[1, 2, 3]]").unwrap().to_outside();
    assert_eq!(r["ok"], true);
    assert_eq!(r["valid"], true);
    assert!(r["script"].as_str().is_some());
}

#[test]
fn test_validate_invalid_query() {
    let b = new_embedded();
    let r = b.validate("NOT VALID SQL").unwrap().to_outside();
    assert_eq!(r["ok"], true);
    assert_eq!(r["valid"], false);
    assert!(r["error"].as_str().is_some());
}

#[test]
fn test_list_relations_empty() {
    let b = new_embedded();
    let r = b.list_relations().unwrap().to_outside();
    assert_eq!(r["ok"], true);
    assert_eq!(r["rows"].as_array().unwrap().len(), 0);
}

#[test]
fn test_list_relations_with_data() {
    let b = new_embedded();
    seed_data(&b);
    let r = b.list_relations().unwrap().to_outside();
    assert_eq!(r["ok"], true);
    let rows = r["rows"].as_array().unwrap();
    assert_eq!(rows.len(), 1);
    assert_eq!(rows[0][0], "people");
}

#[test]
fn test_list_columns() {
    let b = new_embedded();
    seed_data(&b);
    let r = b.list_columns("people").unwrap().to_outside();
    assert_eq!(r["ok"], true);
    let rows = r["rows"].as_array().unwrap();
    assert!(rows.len() >= 3);
    let headers = r["headers"].as_array().unwrap();
    assert!(!headers.is_empty());
}

#[test]
fn test_list_columns_nonexistent() {
    let b = new_embedded();
    let r = b.list_columns("nonexistent").unwrap().to_outside();
    assert_eq!(r["ok"], false);
}

#[test]
fn test_list_indices_empty() {
    let b = new_embedded();
    seed_data(&b);
    let r = b.list_indices("people").unwrap().to_outside();
    assert_eq!(r["ok"], true);
}

fn has_index(r: &Value, name: &str) -> bool {
    r["rows"].as_array().unwrap().iter().any(|row| {
        row.as_array()
            .map(|a| a.iter().any(|v| v.as_str() == Some(name)))
            .unwrap_or(false)
    })
}

#[test]
fn test_create_and_list_and_drop_index() {
    let b = new_embedded();
    seed_data(&b);

    let r = b.create_index("people", "idx_age", &["age".to_string()]).unwrap().to_outside();
    assert_eq!(r["ok"], true, "create index failed: {}", r);

    let r = b.list_indices("people").unwrap().to_outside();
    assert_eq!(r["ok"], true);
    assert!(has_index(&r, "idx_age"), "idx_age not found in indices: {:?}", r["rows"]);

    let r = b.drop_index("people", "idx_age").unwrap().to_outside();
    assert_eq!(r["ok"], true, "drop index failed: {}", r);

    let r = b.list_indices("people").unwrap().to_outside();
    assert!(!has_index(&r, "idx_age"), "idx_age should be dropped");
}

#[test]
fn test_show_triggers() {
    let b = new_embedded();
    seed_data(&b);
    let r = b.show_triggers("people").unwrap().to_outside();
    assert_eq!(r["ok"], true);
}

#[test]
fn test_describe_get_and_set() {
    let b = new_embedded();
    seed_data(&b);
    // `::describe` is in the grammar but not accepted as a system command, so
    // the backend returns the parser's error.
    let r = b.describe_relation("people", Some("A table of people")).unwrap().to_outside();
    assert_eq!(r["ok"], false);
    assert!(r["message"].as_str().unwrap().contains("parser"));

    let r = b.describe_relation("people", None).unwrap().to_outside();
    assert_eq!(r["ok"], false);
}

#[test]
fn test_full_schema_empty() {
    let b = new_embedded();
    let r = b.full_schema().unwrap().to_outside();
    assert_eq!(r["ok"], true);
    assert_eq!(r["schema"].as_array().unwrap().len(), 0);
}

#[test]
fn test_full_schema_with_data() {
    let b = new_embedded();
    seed_data(&b);
    let r = b.full_schema().unwrap().to_outside();
    assert_eq!(r["ok"], true);
    let schema = r["schema"].as_array().unwrap();
    assert_eq!(schema.len(), 1);
    let people = &schema[0];
    assert_eq!(people["name"], "people");
    assert!(people["columns"].is_object() || people["columns"].is_array());
}

#[test]
fn test_batch_non_transactional() {
    let b = new_embedded();
    let queries = vec![
        ("?[] <- [[1]]".to_string(), BTreeMap::new()),
        ("?[] <- [[2]]".to_string(), BTreeMap::new()),
        ("?[] <- [[3]]".to_string(), BTreeMap::new()),
    ];
    let r = b.batch(&queries, false).unwrap().to_outside();
    assert_eq!(r["ok"], true);
    assert_eq!(r["query_count"], 3);
    let results = r["results"].as_array().unwrap();
    assert_eq!(results.len(), 3);
    for result in results {
        assert_eq!(result["ok"], true);
    }
}

#[test]
fn test_batch_transactional_success() {
    let b = new_embedded();
    seed_data(&b);
    let queries = vec![
        (
            r#"?[name, age, city] <- [["Frank", 50, "Boston"]] :put people {name => age, city}"#.to_string(),
            BTreeMap::new(),
        ),
        (
            r#"?[name, age, city] <- [["Grace", 33, "Denver"]] :put people {name => age, city}"#.to_string(),
            BTreeMap::new(),
        ),
    ];
    let r = b.batch(&queries, true).unwrap().to_outside();
    assert_eq!(r["ok"], true, "batch failed: {}", r);
    assert_eq!(r["query_count"], 2);

    let r = query(&b, "?[count(name)] := *people{name}", true, 0, 0);
    let count = r["rows"].as_array().unwrap()[0][0].as_u64().unwrap();
    assert_eq!(count, 7);
}

#[test]
fn test_batch_transactional_rollback_on_error() {
    let b = new_embedded();
    seed_data(&b);
    let queries = vec![
        (
            r#"?[name, age, city] <- [["Hank", 45, "Miami"]] :put people {name => age, city}"#.to_string(),
            BTreeMap::new(),
        ),
        ("THIS IS NOT VALID".to_string(), BTreeMap::new()),
    ];
    let r = b.batch(&queries, true).unwrap().to_outside();
    assert_eq!(r["ok"], false, "batch should have failed: {}", r);

    let r = query(&b, "?[name] := *people{name}, name = 'Hank'", true, 0, 0);
    assert_eq!(r["rows"].as_array().unwrap().len(), 0);
}

#[test]
fn test_batch_non_transactional_partial_failure() {
    let b = new_embedded();
    let queries = vec![
        ("?[] <- [[1]]".to_string(), BTreeMap::new()),
        ("INVALID".to_string(), BTreeMap::new()),
        ("?[] <- [[3]]".to_string(), BTreeMap::new()),
    ];
    let r = b.batch(&queries, false).unwrap().to_outside();
    assert_eq!(r["ok"], true);
    let results = r["results"].as_array().unwrap();
    assert_eq!(results.len(), 3);
    assert_eq!(results[0]["ok"], true);
    assert_eq!(results[1]["ok"], false);
    assert_eq!(results[2]["ok"], true);
}

#[test]
fn test_list_running() {
    let b = new_embedded();
    let r = b.list_running().unwrap().to_outside();
    assert_eq!(r["ok"], true);
    assert!(r["rows"].as_array().is_some());
}

#[test]
fn test_kill_nonexistent() {
    let b = new_embedded();
    let r = b.kill_running(99999).unwrap().to_outside();
    assert!(r.is_object());
}

#[test]
fn test_list_fixed_rules() {
    let b = new_embedded();
    let r = b.list_fixed_rules().unwrap().to_outside();
    assert_eq!(r["ok"], true);
    let rows = r["rows"].as_array().unwrap();
    assert!(rows.len() > 10, "expected many fixed rules, got {}", rows.len());
}

#[test]
fn test_compact() {
    let b = new_embedded();
    seed_data(&b);
    let r = b.compact().unwrap().to_outside();
    assert_eq!(r["ok"], true);
}

fn relation_count(b: &EmbeddedBackend) -> usize {
    b.list_relations().unwrap().to_outside()["rows"].as_array().unwrap().len()
}

#[test]
fn test_remove_relations() {
    let b = new_embedded();
    seed_data(&b);
    assert_eq!(relation_count(&b), 1);
    let r = b.remove_relations(&["people".to_string()]).unwrap().to_outside();
    assert_eq!(r["ok"], true);
    assert_eq!(relation_count(&b), 0);
}

#[test]
fn test_remove_nonexistent_relation() {
    let b = new_embedded();
    let r = b.remove_relations(&["does_not_exist".to_string()]).unwrap().to_outside();
    assert!(r.is_object());
}

#[test]
fn test_rename_relations() {
    let b = new_embedded();
    seed_data(&b);
    let r = b
        .rename_relations(&[("people".to_string(), "humans".to_string())])
        .unwrap()
        .to_outside();
    assert_eq!(r["ok"], true, "rename failed: {}", r);

    let r = b.list_columns("people").unwrap().to_outside();
    assert_eq!(r["ok"], false);

    let r = b.list_columns("humans").unwrap().to_outside();
    assert_eq!(r["ok"], true);
    assert!(r["rows"].as_array().unwrap().len() >= 3);

    let r = query(&b, "?[count(name)] := *humans{name}", true, 0, 0);
    assert_eq!(r["rows"].as_array().unwrap()[0][0], 5);
}

#[test]
fn test_set_access_level() {
    let b = new_embedded();
    seed_data(&b);
    let r = b.set_access_level("read_only", &["people".to_string()]).unwrap().to_outside();
    assert_eq!(r["ok"], true, "set access level failed: {}", r);

    let r = query(
        &b,
        r#"?[name, age, city] <- [["Zara", 22, "SF"]] :put people {name => age, city}"#,
        false,
        0,
        0,
    );
    assert_eq!(r["ok"], false);

    let r = query(&b, "?[name] := *people{name}", true, 0, 0);
    assert_eq!(r["ok"], true);

    let r = b.set_access_level("normal", &["people".to_string()]).unwrap().to_outside();
    assert_eq!(r["ok"], true);
}

#[test]
fn test_export_and_import() {
    let b = new_embedded();
    seed_data(&b);

    let r = b.export_relations(&["people".to_string()]).unwrap().to_outside();
    assert_eq!(r["ok"], true, "export failed: {}", r);
    let export_data = r["data"].clone();
    assert!(export_data["people"].is_object(), "missing people data: {}", export_data);

    let r = b.remove_relations(&["people".to_string()]).unwrap().to_outside();
    assert_eq!(r["ok"], true);
    assert_eq!(relation_count(&b), 0);

    let _ = b.query(
        ":create people {name: String => age: Int, city: String}",
        &no_params(),
        false,
        0,
        0,
    );

    let r = b.import_relations(&export_data).unwrap().to_outside();
    assert_eq!(r["ok"], true, "import failed: {}", r);

    let r = query(&b, "?[count(name)] := *people{name}", true, 0, 0);
    assert_eq!(r["ok"], true);
    assert_eq!(r["rows"].as_array().unwrap()[0][0], 5);
}

#[test]
fn test_import_bad_data() {
    let b = new_embedded();
    let r = b.import_relations(&Value::from("not an object")).unwrap().to_outside();
    assert_eq!(r["ok"], false);
}

#[test]
fn test_mode_name() {
    let b = new_embedded();
    assert_eq!(b.mode_name(), "embedded");
}

#[test]
fn test_full_lifecycle() {
    let b = new_embedded();

    assert_eq!(b.health().unwrap().to_outside()["ok"], true);
    assert_eq!(relation_count(&b), 0);

    seed_data(&b);
    assert_eq!(relation_count(&b), 1);

    let cols = b.list_columns("people").unwrap().to_outside();
    assert!(cols["rows"].as_array().unwrap().len() >= 3);

    let r = b.create_index("people", "idx_city", &["city".to_string()]).unwrap().to_outside();
    assert_eq!(r["ok"], true);

    let schema = b.full_schema().unwrap().to_outside();
    assert!(schema["schema"].as_array().unwrap().len() >= 1);

    let r = query(&b, "?[name, age] := *people{name, age, city}, city = 'NYC'", true, 0, 0);
    assert_eq!(r["rows"].as_array().unwrap().len(), 2);

    let r = b.explain("?[name] := *people{name, city}, city = 'NYC'").unwrap().to_outside();
    assert_eq!(r["ok"], true);

    let r = b.validate("?[name] := *people{name}").unwrap().to_outside();
    assert_eq!(r["valid"], true);

    b.drop_index("people", "idx_city").unwrap();

    let r = b.describe_relation("people", Some("People table")).unwrap().to_outside();
    assert_eq!(r["ok"], false);

    assert_eq!(b.compact().unwrap().to_outside()["ok"], true);

    assert_eq!(b.remove_relations(&["people".to_string()]).unwrap().to_outside()["ok"], true);
    assert_eq!(relation_count(&b), 0);
}

#[test]
fn test_multiple_relations() {
    let b = new_embedded();
    seed_data(&b);

    b.query(":create cities {name: String => population: Int}", &no_params(), false, 0, 0)
        .unwrap();
    b.query(
        r#"?[name, population] <- [["NYC", 8000000], ["LA", 4000000], ["Chicago", 2700000]]
        :put cities {name => population}"#,
        &no_params(),
        false,
        0,
        0,
    )
    .unwrap();

    assert_eq!(relation_count(&b), 2);

    let schema = b.full_schema().unwrap().to_outside();
    assert_eq!(schema["schema"].as_array().unwrap().len(), 2);

    let r = query(
        &b,
        "?[name, age, population] := *people{name, age, city}, *cities{name: city, population}",
        true,
        0,
        0,
    );
    assert_eq!(r["ok"], true);
    assert_eq!(r["rows"].as_array().unwrap().len(), 5);

    b.rename_relations(&[("cities".to_string(), "metropolis".to_string())]).unwrap();

    let rels = b.list_relations().unwrap().to_outside();
    let names: Vec<&str> = rels["rows"]
        .as_array()
        .unwrap()
        .iter()
        .map(|r| r[0].as_str().unwrap())
        .collect();
    assert!(names.contains(&"people"));
    assert!(names.contains(&"metropolis"));
    assert!(!names.contains(&"cities"));
}

#[test]
fn test_export_multiple() {
    let b = new_embedded();
    seed_data(&b);

    b.query(":create tags {label: String}", &no_params(), false, 0, 0).unwrap();
    b.query(r#"?[label] <- [["active"], ["admin"]] :put tags {label}"#, &no_params(), false, 0, 0)
        .unwrap();

    let r = b
        .export_relations(&["people".to_string(), "tags".to_string()])
        .unwrap()
        .to_outside();
    assert_eq!(r["ok"], true);
    assert!(r["data"]["people"].is_object());
    assert!(r["data"]["tags"].is_object());
}

#[test]
fn test_batch_with_params() {
    let b = new_embedded();
    let mut p1 = BTreeMap::new();
    p1.insert("val".to_string(), Value::from(100));
    let mut p2 = BTreeMap::new();
    p2.insert("val".to_string(), Value::from(200));

    let queries = vec![("?[x] <- [[$val]]".to_string(), p1), ("?[x] <- [[$val]]".to_string(), p2)];
    let r = b.batch(&queries, false).unwrap().to_outside();
    assert_eq!(r["ok"], true);
    let results = r["results"].as_array().unwrap();
    assert_eq!(results[0]["rows"].as_array().unwrap()[0][0], 100);
    assert_eq!(results[1]["rows"].as_array().unwrap()[0][0], 200);
}

#[test]
fn sqlite_engine_opens_and_answers() {
    let b = EmbeddedBackend::new("sqlite", "/tmp/cozo_bin_sqlite_engine_test.db", "{}")
        .expect("failed to open the sqlite engine");
    let r = b.health().unwrap().to_outside();
    assert_eq!(r["ok"], true);
    assert_eq!(r["engine"], "sqlite");
    let v = query(&b, "?[] <- [[1, 'sqlite works']]", true, 0, 0);
    assert_eq!(v["ok"], true);
    assert_eq!(v["rows"], serde_json::from_str::<Value>("[[1, \"sqlite works\"]]").unwrap());
}

#[test]
fn backup_into_a_missing_directory_fails() {
    let b = new_embedded();
    let v = b.backup("/no/such/directory/backup.db").unwrap().to_outside();
    assert_eq!(v["ok"], false);
    assert!(v["message"].is_string());
    let v = b
        .import_from_backup("/no/such/directory/backup.db", &["people".to_string()])
        .unwrap()
        .to_outside();
    assert_eq!(v["ok"], false);
    assert!(v["message"].is_string());
}

#[test]
fn chained_results_are_reported_in_next() {
    let b = new_embedded();
    let v = query(&b, "{?[a] <- [[1]]} as _x {?[b] <- [[2]]} as _y %return _x, _y", true, 0, 0);
    assert_eq!(v["ok"], true);
    assert_eq!(v["headers"], serde_json::from_str::<Value>("[\"a\"]").unwrap());
    assert_eq!(v["rows"], serde_json::from_str::<Value>("[[1]]").unwrap());
    assert_eq!(v["next"]["headers"], serde_json::from_str::<Value>("[\"b\"]").unwrap());
    assert_eq!(v["next"]["rows"], serde_json::from_str::<Value>("[[2]]").unwrap());
    assert_eq!(v["next"]["next"], Value::Null);
}

#[test]
fn export_names_each_requested_relation() {
    let b = new_embedded();
    seed_data(&b);
    let v = b.export_relations(&["people".to_string()]).unwrap().to_outside();
    assert_eq!(v["ok"], true);
    assert_eq!(v["data"]["people"]["rows"].as_array().unwrap().len(), 5);
    let v = b.export_relations(&["nobody".to_string()]).unwrap().to_outside();
    assert_eq!(v["ok"], false);
    assert!(v["message"].is_string());
}

#[test]
fn opened_database_keeps_its_engine() {
    let b = EmbeddedBackend::new("mem", "", "").unwrap();
    let r = b.health().unwrap().to_outside();
    assert_eq!(r["engine"], "mem");
}

#[test]
fn validate_agrees_with_explain() {
    let b = new_embedded();
    for s in ["?[a] <- [[1]]", "THIS IS NOT VALID"] {
        let v = b.validate(s).unwrap().to_outside();
        let e = b.explain(s).unwrap().to_outside();
        assert_eq!(v["ok"], true);
        assert_eq!(v["script"], s);
        assert_eq!(v["valid"], Value::Bool(e["ok"] == Value::Bool(true)));
    }
}

#[test]
fn schema_has_one_entry_per_listed_relation() {
    let b = new_embedded();
    seed_data(&b);
    let listing = b.list_relations().unwrap().to_outside();
    let schema = b.full_schema().unwrap().to_outside();
    assert_eq!(schema["ok"], true);
    let rows = listing["rows"].as_array().unwrap();
    let entries = schema["schema"].as_array().unwrap();
    assert_eq!(entries.len(), rows.len());
    for (e, r) in entries.iter().zip(rows.iter()) {
        assert_eq!(e["name"], r[0]);
    }
}

#[test]
fn import_with_a_bad_entry_imports_nothing() {
    let b = new_embedded();
    seed_data(&b);
    let payload: Value = serde_json::from_str(
        r#"{"people": {"headers": ["name", "age", "city"], "rows": [["Zed", 1, "X"]]}, "zzz": 3}"#,
    )
    .unwrap();
    let v = b.import_relations(&payload).unwrap().to_outside();
    assert_eq!(v["ok"], false);
    assert!(v["message"].as_str().unwrap().starts_with("Bad data for 'zzz': "));
    let q = query(&b, "?[name] := *people{name}", true, 0, 0);
    assert_eq!(q["rows"].as_array().unwrap().len(), 5);
}
