use schema_resolver::emit::render_schema;
use schema_resolver::pipeline::process_model;
use schema_resolver::schema::{DeclaredColumn, Node};

fn node_with(code: &str, declared: Option<Vec<DeclaredColumn>>) -> Node {
    Node {
        name: "orders".to_string(),
        resource_type: "model".to_string(),
        compiled_code: code.to_string(),
        database: "jaffle_shop".to_string(),
        schema: "main".to_string(),
        original_file_path: "models/orders.sql".to_string(),
        alias: "orders".to_string(),
        declared_columns: declared,
    }
}

#[test]
fn rendered_document_exact() {
    let declared = vec![DeclaredColumn {
        name: "id".to_string(),
        tags: vec!["pii".to_string()],
    }];
    let out = process_model(
        &node_with("SELECT id, total AS order_total FROM raw_orders", Some(declared)),
        &None,
    );
    let text = render_schema(&out.schema);
    let expected = "version: 2\n\
                    models:\n\
                    \x20 - name: orders\n\
                    \x20   columns:\n\
                    \x20     - name: id\n\
                    \x20       tests:\n\
                    \x20         - not_null\n\
                    \x20         - unique\n\
                    \x20       tags:\n\
                    \x20         - pii\n\
                    \x20     - name: order_total\n";
    assert_eq!(text, expected);
}

#[test]
fn rendering_twice_is_byte_identical() {
    let out1 = process_model(&node_with("SELECT a, b FROM t", None), &None);
    let out2 = process_model(&node_with("SELECT a, b FROM t", None), &None);
    assert_eq!(render_schema(&out1.schema), render_schema(&out2.schema));
}

#[test]
fn empty_column_list_still_renders_model_entry() {
    let out = process_model(&node_with("garbage text", None), &None);
    assert!(out.parse_failed);
    let text = render_schema(&out.schema);
    assert_eq!(text, "version: 2\nmodels:\n  - name: orders\n    columns:\n");
}
