use schema_resolver::pipeline::{derive_output_path, process_model, process_nodes, RunSummary};
use schema_resolver::resolve::resolve_columns;
use schema_resolver::schema::{
    ColumnMetadata, ColumnSource, DeclaredColumn, Node, ResolvedColumn,
};

fn orders_node(compiled_code: &str, declared: Option<Vec<DeclaredColumn>>) -> Node {
    Node {
        name: "orders".to_string(),
        resource_type: "model".to_string(),
        compiled_code: compiled_code.to_string(),
        database: "jaffle_shop".to_string(),
        schema: "main".to_string(),
        original_file_path: "models/orders.sql".to_string(),
        alias: "orders".to_string(),
        declared_columns: declared,
    }
}

fn declared_id() -> Vec<DeclaredColumn> {
    vec![DeclaredColumn { name: "id".to_string(), tags: vec![] }]
}

fn meta(name: &str, data_type: &str, precision: Option<i32>, scale: Option<i32>) -> ColumnMetadata {
    ColumnMetadata {
        column_name: name.to_string(),
        data_type: data_type.to_string(),
        character_maximum_length: None,
        numeric_precision: precision,
        numeric_scale: scale,
    }
}

fn col_names(cols: &[ResolvedColumn]) -> Vec<String> {
    cols.iter().map(|c| c.name.clone()).collect()
}

#[test]
fn declared_and_parsed_without_database() {
    let node = orders_node("SELECT id, total AS order_total FROM raw_orders", Some(declared_id()));
    let out = process_model(&node, &None);
    assert!(!out.parse_failed);
    let cols = &out.schema.columns;
    assert_eq!(col_names(cols), vec!["id".to_string(), "order_total".to_string()]);
    assert_eq!(cols[0].tests, vec!["not_null".to_string(), "unique".to_string()]);
    assert_eq!(cols[0].source, ColumnSource::Declared);
    assert!(cols[0].tags.is_empty());
    assert!(cols[1].tests.is_empty());
    assert!(cols[1].tags.is_empty());
    assert_eq!(cols[1].source, ColumnSource::Parsed);
    assert_eq!(out.schema.model_name, "orders");
    assert_eq!(out.schema.output_path, "models/orders_schema.yml");
}

#[test]
fn introspection_enriches_without_touching_tests() {
    let node = orders_node("SELECT id, total AS order_total FROM raw_orders", Some(declared_id()));
    let intro = Some(vec![
        meta("id", "INTEGER", None, None),
        meta("order_total", "DECIMAL", Some(10), Some(2)),
    ]);
    let out = process_model(&node, &intro);
    let cols = &out.schema.columns;
    assert_eq!(col_names(cols), vec!["id".to_string(), "order_total".to_string()]);
    assert_eq!(cols[0].data_type.as_deref(), Some("INTEGER"));
    assert_eq!(cols[0].tests, vec!["not_null".to_string(), "unique".to_string()]);
    assert_eq!(cols[0].source, ColumnSource::Declared);
    assert_eq!(cols[1].data_type.as_deref(), Some("DECIMAL"));
    assert_eq!(cols[1].numeric_precision, Some(10));
    assert_eq!(cols[1].numeric_scale, Some(2));
    assert!(cols[1].tests.is_empty());
    assert_eq!(cols[1].source, ColumnSource::Introspected);
}

#[test]
fn unparseable_model_still_appears() {
    let node = orders_node("not even close to sql (", None);
    let out = process_model(&node, &None);
    assert!(out.parse_failed);
    assert!(out.schema.columns.is_empty());
    assert_eq!(out.schema.model_name, "orders");
    assert_eq!(out.schema.output_path, "models/orders_schema.yml");
}

#[test]
fn resolver_is_deterministic() {
    let node = orders_node(
        "WITH cte AS (SELECT id FROM raw) SELECT id, total AS order_total FROM cte",
        Some(declared_id()),
    );
    let a = process_model(&node, &None);
    let b = process_model(&node, &None);
    assert_eq!(a.parse_failed, b.parse_failed);
    assert_eq!(a.schema.model_name, b.schema.model_name);
    assert_eq!(a.schema.output_path, b.schema.output_path);
    assert_eq!(col_names(&a.schema.columns), col_names(&b.schema.columns));
    for (x, y) in a.schema.columns.iter().zip(b.schema.columns.iter()) {
        assert_eq!(x.tags, y.tags);
        assert_eq!(x.tests, y.tests);
        assert_eq!(x.data_type, y.data_type);
        assert_eq!(x.char_max_length, y.char_max_length);
        assert_eq!(x.numeric_precision, y.numeric_precision);
        assert_eq!(x.numeric_scale, y.numeric_scale);
        assert_eq!(x.source, y.source);
    }
}

#[test]
fn declared_tags_are_kept() {
    let declared = vec![
        DeclaredColumn { name: "id".to_string(), tags: vec!["pii".to_string()] },
        DeclaredColumn { name: "status".to_string(), tags: vec![] },
    ];
    let parsed = vec!["status".to_string(), "extra".to_string()];
    let cols = resolve_columns(&declared, &None, &parsed);
    assert_eq!(
        col_names(&cols),
        vec!["id".to_string(), "status".to_string(), "extra".to_string()]
    );
    assert_eq!(cols[0].tags, vec!["pii".to_string()]);
    assert_eq!(cols[1].tests, vec!["not_null".to_string(), "unique".to_string()]);
    assert_eq!(cols[2].source, ColumnSource::Parsed);
}

#[test]
fn introspected_new_names_follow_declared_order() {
    let declared = vec![DeclaredColumn { name: "b".to_string(), tags: vec![] }];
    let intro = Some(vec![
        meta("a", "TEXT", None, None),
        meta("b", "INTEGER", None, None),
    ]);
    let parsed = vec!["c".to_string(), "a".to_string()];
    let cols = resolve_columns(&declared, &intro, &parsed);
    assert_eq!(
        col_names(&cols),
        vec!["b".to_string(), "a".to_string(), "c".to_string()]
    );
    assert_eq!(cols[0].data_type.as_deref(), Some("INTEGER"));
    assert_eq!(cols[0].source, ColumnSource::Declared);
    assert_eq!(cols[1].data_type.as_deref(), Some("TEXT"));
    assert_eq!(cols[1].source, ColumnSource::Introspected);
    assert_eq!(cols[2].data_type, None);
    assert_eq!(cols[2].source, ColumnSource::Parsed);
}

#[test]
fn character_length_is_carried_over() {
    let declared: Vec<DeclaredColumn> = vec![];
    let intro = Some(vec![ColumnMetadata {
        column_name: "label".to_string(),
        data_type: "VARCHAR".to_string(),
        character_maximum_length: Some(64),
        numeric_precision: None,
        numeric_scale: None,
    }]);
    let parsed: Vec<String> = vec![];
    let cols = resolve_columns(&declared, &intro, &parsed);
    assert_eq!(cols.len(), 1);
    assert_eq!(cols[0].char_max_length, Some(64));
}

#[test]
fn output_path_replaces_extension() {
    assert_eq!(derive_output_path("models/orders.sql"), "models/orders_schema.yml");
    assert_eq!(derive_output_path("orders.sql"), "orders_schema.yml");
    assert_eq!(derive_output_path("models/orders"), "models/orders_schema.yml");
    assert_eq!(derive_output_path("a.b/c"), "a.b/c_schema.yml");
    assert_eq!(derive_output_path(""), "_schema.yml");
}

#[test]
fn only_model_nodes_are_processed() {
    let model = orders_node("SELECT id FROM t", None);
    let seed = Node {
        name: "raw_orders".to_string(),
        resource_type: "seed".to_string(),
        compiled_code: String::new(),
        database: "jaffle_shop".to_string(),
        schema: "main".to_string(),
        original_file_path: "seeds/raw_orders.csv".to_string(),
        alias: "raw_orders".to_string(),
        declared_columns: None,
    };
    let nodes = vec![seed, model];
    let outs = process_nodes(&nodes);
    assert_eq!(outs.len(), 1);
    assert_eq!(outs[0].schema.model_name, "orders");
    assert_eq!(col_names(&outs[0].schema.columns), vec!["id".to_string()]);
}

#[test]
fn run_summary_counts() {
    let mut summary = RunSummary::new();
    summary.record_processed();
    summary.record_processed();
    summary.record_skipped();
    summary.record_parse_failure();
    assert_eq!(summary.processed, 2);
    assert_eq!(summary.skipped, 1);
    assert_eq!(summary.parse_failures, 1);
}

#[test]
fn empty_manifest_yields_no_output() {
    let nodes: Vec<Node> = vec![];
    let outs = process_nodes(&nodes);
    assert!(outs.is_empty());
}

#[test]
fn name_shared_by_all_sources_appears_once() {
    let declared = vec![DeclaredColumn { name: "id".to_string(), tags: vec![] }];
    let intro = Some(vec![meta("id", "INTEGER", None, None)]);
    let parsed = vec!["id".to_string()];
    let cols = resolve_columns(&declared, &intro, &parsed);
    assert_eq!(col_names(&cols), vec!["id".to_string()]);
    assert_eq!(cols[0].source, ColumnSource::Declared);
    assert_eq!(cols[0].data_type.as_deref(), Some("INTEGER"));
    assert_eq!(cols[0].tests, vec!["not_null".to_string(), "unique".to_string()]);
}

#[test]
fn node_without_compiled_code_or_columns() {
    let node = orders_node("", None);
    let out = process_model(&node, &None);
    assert!(out.parse_failed);
    assert!(out.schema.columns.is_empty());
}
