//! Selection of the database backend named by a manifest's adapter marker.
//!
//! The set of backends is closed: an unrecognized marker does not abort a
//! run, it only makes catalog introspection unavailable.

use vstd::prelude::*;
use crate::text::{eq_ignore_ascii_case, lemma_lower_seq_id, to_lower_seq};

verus! {

/// The closed set of database backends that catalog introspection understands.
#[derive(Debug, Clone, Copy, PartialEq, Eq, Structural)]
pub enum SupportedAdapters {
    BigQuery,
    Postgres,
    Snowflake,
    Duckdb,
}

/// The backend a given adapter marker selects, up to ASCII case;
/// `None` for every marker outside the closed set.
pub open spec fn spec_adapter_of(s: Seq<char>) -> Option<SupportedAdapters> {
    if to_lower_seq(s) == "bigquery"@ {
        Some(SupportedAdapters::BigQuery)
    } else if to_lower_seq(s) == "postgres"@ {
        Some(SupportedAdapters::Postgres)
    } else if to_lower_seq(s) == "snowflake"@ {
        Some(SupportedAdapters::Snowflake)
    } else if to_lower_seq(s) == "duckdb"@ {
        Some(SupportedAdapters::Duckdb)
    } else {
        None
    }
}

impl SupportedAdapters {
    /// Selects the backend named by `adapter_type`, ignoring ASCII case.
    pub fn from_str(adapter_type: &str) -> (r: Option<SupportedAdapters>)
        ensures
            r == spec_adapter_of(adapter_type@),
    {
        proof {
            reveal_strlit("bigquery");
            reveal_strlit("postgres");
            reveal_strlit("snowflake");
            reveal_strlit("duckdb");
            lemma_lower_seq_id("bigquery"@);
            lemma_lower_seq_id("postgres"@);
            lemma_lower_seq_id("snowflake"@);
            lemma_lower_seq_id("duckdb"@);
        }
        if eq_ignore_ascii_case(adapter_type, "bigquery") {
            Some(SupportedAdapters::BigQuery)
        } else if eq_ignore_ascii_case(adapter_type, "postgres") {
            Some(SupportedAdapters::Postgres)
        } else if eq_ignore_ascii_case(adapter_type, "snowflake") {
            Some(SupportedAdapters::Snowflake)
        } else if eq_ignore_ascii_case(adapter_type, "duckdb") {
            Some(SupportedAdapters::Duckdb)
        } else {
            None
        }
    }
}

} // verus!
