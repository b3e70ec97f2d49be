use schema_resolver::extract::extract;

fn names(code: &str) -> Vec<String> {
    let out = extract(code);
    assert!(!out.parse_failed, "expected {code:?} to parse");
    out.columns
}

#[test]
fn plain_projection_with_alias() {
    assert_eq!(
        names("SELECT id, total AS order_total FROM raw_orders"),
        vec!["id".to_string(), "order_total".to_string()]
    );
}

#[test]
fn select_without_from() {
    assert_eq!(names("SELECT a, b"), vec!["a".to_string(), "b".to_string()]);
}

#[test]
fn duplicate_names_collapse_to_first_seen() {
    assert_eq!(
        names("SELECT id, id, name, id FROM t"),
        vec!["id".to_string(), "name".to_string()]
    );
}

#[test]
fn qualified_identifier_takes_last_segment() {
    assert_eq!(
        names("SELECT t.col, x.y AS z FROM t"),
        vec!["col".to_string(), "z".to_string()]
    );
}

#[test]
fn unaliased_expression_is_skipped() {
    assert_eq!(names("SELECT count(1), id FROM t"), vec!["id".to_string()]);
}

#[test]
fn aliased_function_call_takes_alias() {
    assert_eq!(
        names("SELECT sum(amount) AS total, id FROM t"),
        vec!["total".to_string(), "id".to_string()]
    );
}

#[test]
fn double_quoted_identifier_keeps_inner_text() {
    assert_eq!(
        names("SELECT \"order id\", a FROM t"),
        vec!["order id".to_string(), "a".to_string()]
    );
}

#[test]
fn comments_and_string_literals_are_opaque() {
    assert_eq!(
        names("-- heading, with a comma\nSELECT 'a,b' AS lit, k FROM t"),
        vec!["lit".to_string(), "k".to_string()]
    );
}

#[test]
fn keywords_are_case_insensitive() {
    assert_eq!(
        names("sElEcT id, total aS order_total FrOm raw_orders"),
        vec!["id".to_string(), "order_total".to_string()]
    );
}

#[test]
fn cte_columns_are_concatenated() {
    assert_eq!(
        names("WITH cte AS (SELECT a, b FROM src) SELECT c FROM cte"),
        vec!["a".to_string(), "b".to_string(), "c".to_string()]
    );
}

#[test]
fn chained_ctes_in_order() {
    assert_eq!(
        names("WITH one AS (SELECT x FROM s), two AS (SELECT y FROM one) SELECT z FROM two"),
        vec!["x".to_string(), "y".to_string(), "z".to_string()]
    );
}

#[test]
fn cte_and_final_query_share_dedup() {
    assert_eq!(
        names("WITH cte AS (SELECT id FROM src) SELECT id, extra FROM cte"),
        vec!["id".to_string(), "extra".to_string()]
    );
}

#[test]
fn nested_parens_do_not_split_items() {
    assert_eq!(
        names("SELECT coalesce(a, b) AS first_found, c FROM t"),
        vec!["first_found".to_string(), "c".to_string()]
    );
}

#[test]
fn unparseable_text_reports_diagnostic() {
    let out = extract("this is not a query");
    assert!(out.parse_failed);
    assert!(out.columns.is_empty());
}

#[test]
fn empty_text_reports_diagnostic() {
    let out = extract("");
    assert!(out.parse_failed);
    assert!(out.columns.is_empty());
}

#[test]
fn unterminated_cte_reports_diagnostic() {
    let out = extract("WITH cte AS (SELECT a FROM t");
    assert!(out.parse_failed);
    assert!(out.columns.is_empty());
}

#[test]
fn cte_without_final_query_reports_diagnostic() {
    let out = extract("WITH cte AS (SELECT a FROM t)");
    assert!(out.parse_failed);
    assert!(out.columns.is_empty());
}

#[test]
fn distinct_qualifier_is_skipped() {
    assert_eq!(
        names("SELECT DISTINCT id, name FROM t"),
        vec!["id".to_string(), "name".to_string()]
    );
    assert_eq!(names("SELECT ALL id FROM t"), vec!["id".to_string()]);
}

#[test]
fn star_projection_names_nothing() {
    assert_eq!(names("SELECT * FROM t"), Vec::<String>::new());
    assert_eq!(names("SELECT t.*, id FROM t"), vec!["id".to_string()]);
}

#[test]
fn subquery_in_projection_respects_nesting() {
    assert_eq!(
        names("SELECT (SELECT max(x) FROM other) AS peak, id FROM t"),
        vec!["peak".to_string(), "id".to_string()]
    );
}
