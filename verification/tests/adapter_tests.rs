use schema_resolver::adapter::SupportedAdapters;

#[test]
fn known_adapters_are_recognized() {
    assert_eq!(
        SupportedAdapters::from_str("bigquery"),
        Some(SupportedAdapters::BigQuery)
    );
    assert_eq!(
        SupportedAdapters::from_str("postgres"),
        Some(SupportedAdapters::Postgres)
    );
    assert_eq!(
        SupportedAdapters::from_str("snowflake"),
        Some(SupportedAdapters::Snowflake)
    );
    assert_eq!(
        SupportedAdapters::from_str("duckdb"),
        Some(SupportedAdapters::Duckdb)
    );
}

#[test]
fn adapter_markers_ignore_ascii_case() {
    assert_eq!(
        SupportedAdapters::from_str("DuckDB"),
        Some(SupportedAdapters::Duckdb)
    );
    assert_eq!(
        SupportedAdapters::from_str("BIGQUERY"),
        Some(SupportedAdapters::BigQuery)
    );
}

#[test]
fn unknown_adapters_degrade_to_none() {
    assert_eq!(SupportedAdapters::from_str("sqlite"), None);
    assert_eq!(SupportedAdapters::from_str(""), None);
    assert_eq!(SupportedAdapters::from_str("duckdb2"), None);
}
