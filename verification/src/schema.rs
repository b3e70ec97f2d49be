//! The data model: manifest nodes, declared columns, introspected column
//! metadata, and the resolved per-model schema, each with its mathematical
//! image.

use vstd::prelude::*;

verus! {

/// A column explicitly listed in the manifest for a model, with its tags.
#[derive(Debug)]
pub struct DeclaredColumn {
    pub name: String,
    pub tags: Vec<String>,
}

/// The mathematical image of a declared column.
pub struct DeclaredModel {
    pub name: Seq<char>,
    pub tags: Seq<Seq<char>>,
}

impl View for DeclaredColumn {
    type V = DeclaredModel;

    open spec fn view(&self) -> DeclaredModel {
        DeclaredModel { name: self.name@, tags: self.tags.deep_view() }
    }
}

/// The images of a declared-column sequence.
pub open spec fn decls_of(v: Seq<DeclaredColumn>) -> Seq<DeclaredModel> {
    v.map_values(|d: DeclaredColumn| d@)
}

/// One column's metadata as a database catalog reports it.
#[derive(Debug)]
pub struct ColumnMetadata {
    pub column_name: String,
    pub data_type: String,
    pub character_maximum_length: Option<i32>,
    pub numeric_precision: Option<i32>,
    pub numeric_scale: Option<i32>,
}

/// The mathematical image of introspected column metadata.
pub struct MetadataModel {
    pub column_name: Seq<char>,
    pub data_type: Seq<char>,
    pub character_maximum_length: Option<i32>,
    pub numeric_precision: Option<i32>,
    pub numeric_scale: Option<i32>,
}

impl View for ColumnMetadata {
    type V = MetadataModel;

    open spec fn view(&self) -> MetadataModel {
        MetadataModel {
            column_name: self.column_name@,
            data_type: self.data_type@,
            character_maximum_length: self.character_maximum_length,
            numeric_precision: self.numeric_precision,
            numeric_scale: self.numeric_scale,
        }
    }
}

/// The images of a metadata sequence.
pub open spec fn metas_of(v: Seq<ColumnMetadata>) -> Seq<MetadataModel> {
    v.map_values(|m: ColumnMetadata| m@)
}

/// Which source first contributed a resolved column's name.
#[derive(Debug, Clone, Copy, PartialEq, Eq, Structural)]
pub enum ColumnSource {
    Declared,
    Introspected,
    Parsed,
}

/// One column of a model's resolved schema.
#[derive(Debug)]
pub struct ResolvedColumn {
    /// Unique key within one model's resolved schema.
    pub name: String,
    pub tags: Vec<String>,
    /// Data-quality tests attached to the column.
    pub tests: Vec<String>,
    pub data_type: Option<String>,
    pub char_max_length: Option<i32>,
    pub numeric_precision: Option<i32>,
    pub numeric_scale: Option<i32>,
    pub source: ColumnSource,
}

/// The mathematical image of a resolved column.
#[verifier::ext_equal]
pub struct ColumnModel {
    pub name: Seq<char>,
    pub tags: Seq<Seq<char>>,
    pub tests: Seq<Seq<char>>,
    pub data_type: Option<Seq<char>>,
    pub char_max_length: Option<i32>,
    pub numeric_precision: Option<i32>,
    pub numeric_scale: Option<i32>,
    pub source: ColumnSource,
}

impl View for ResolvedColumn {
    type V = ColumnModel;

    open spec fn view(&self) -> ColumnModel {
        ColumnModel {
            name: self.name@,
            tags: self.tags.deep_view(),
            tests: self.tests.deep_view(),
            data_type: self.data_type.deep_view(),
            char_max_length: self.char_max_length,
            numeric_precision: self.numeric_precision,
            numeric_scale: self.numeric_scale,
            source: self.source,
        }
    }
}

/// The images of a resolved-column sequence.
pub open spec fn cols_of(v: Seq<ResolvedColumn>) -> Seq<ColumnModel> {
    v.map_values(|c: ResolvedColumn| c@)
}

/// One manifest entry in scope: a model with its compiled query text,
/// location, and optionally declared columns.
#[derive(Debug)]
pub struct Node {
    pub name: String,
    pub resource_type: String,
    pub compiled_code: String,
    pub database: String,
    pub schema: String,
    pub original_file_path: String,
    pub alias: String,
    pub declared_columns: Option<Vec<DeclaredColumn>>,
}

/// The mathematical image of a node.
pub struct NodeModel {
    pub name: Seq<char>,
    pub resource_type: Seq<char>,
    pub compiled_code: Seq<char>,
    pub database: Seq<char>,
    pub schema: Seq<char>,
    pub original_file_path: Seq<char>,
    pub alias: Seq<char>,
    pub declared_columns: Option<Seq<DeclaredModel>>,
}

impl View for Node {
    type V = NodeModel;

    open spec fn view(&self) -> NodeModel {
        NodeModel {
            name: self.name@,
            resource_type: self.resource_type@,
            compiled_code: self.compiled_code@,
            database: self.database@,
            schema: self.schema@,
            original_file_path: self.original_file_path@,
            alias: self.alias@,
            declared_columns: match self.declared_columns {
                Some(ds) => Some(decls_of(ds@)),
                None => None,
            },
        }
    }
}

/// The manifest's own metadata.
#[derive(Debug)]
pub struct Metadata {
    pub dbt_version: String,
    pub generated_at: String,
    pub adapter_type: String,
}

/// A decoded build manifest: metadata and the nodes it enumerates.
#[derive(Debug)]
pub struct Manifest {
    pub metadata: Metadata,
    pub nodes: Vec<Node>,
}

/// The resolved schema of one model: its ordered, de-duplicated columns
/// and the output location derived from the model's source path.
#[derive(Debug)]
pub struct ResolvedModelSchema {
    pub model_name: String,
    pub output_path: String,
    pub columns: Vec<ResolvedColumn>,
}

/// The mathematical image of a resolved model schema.
#[verifier::ext_equal]
pub struct SchemaModel {
    pub model_name: Seq<char>,
    pub output_path: Seq<char>,
    pub columns: Seq<ColumnModel>,
}

impl View for ResolvedModelSchema {
    type V = SchemaModel;

    open spec fn view(&self) -> SchemaModel {
        SchemaModel {
            model_name: self.model_name@,
            output_path: self.output_path@,
            columns: cols_of(self.columns@),
        }
    }
}

} // verus!
