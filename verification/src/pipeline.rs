//! Per-model processing: extraction, resolution, and output-path
//! derivation, plus the run summary that aggregates per-model outcomes.
//!
//! Catalog introspection happens outside the library; its result for one
//! model arrives here as a plain optional metadata list, `None` when the
//! source was unavailable, the connection failed, or the target table did
//! not exist.

use vstd::prelude::*;
use crate::extract::{extract, names_of, spec_extract};
use crate::resolve::{resolve_columns, spec_resolve};
use crate::adapter::{spec_adapter_of, SupportedAdapters};
use crate::schema::{
    ColumnMetadata, DeclaredColumn, DeclaredModel, Manifest, MetadataModel, Node, NodeModel,
    ResolvedModelSchema, SchemaModel, decls_of, metas_of,
};

verus! {

/// The images of an optional introspection result: `None` when the
/// source was unavailable.
pub open spec fn metas_opt(o: Option<Vec<ColumnMetadata>>) -> Option<Seq<MetadataModel>> {
    match o {
        Some(ms) => Some(metas_of(ms@)),
        None => None,
    }
}

/// The declared columns of a node; empty when the manifest declares none.
pub open spec fn node_decls(n: NodeModel) -> Seq<DeclaredModel> {
    match n.declared_columns {
        Some(ds) => ds,
        None => seq![],
    }
}

/// The parsed column names of query text; empty on parse failure.
pub open spec fn parsed_names(code: Seq<char>) -> Seq<Seq<char>> {
    match spec_extract(code) {
        Some(ns) => ns,
        None => seq![],
    }
}

/// Where the stem of a path ends, scanning left from position `i`: just
/// before the extension's dot, or the whole length when the last segment
/// has no extension.
pub open spec fn stem_end(p: Seq<char>, i: int) -> int
    decreases i when 0 <= i <= p.len()
{
    if i <= 0 {
        p.len() as int
    } else if p[i - 1] == '.' {
        i - 1
    } else if p[i - 1] == '/' {
        p.len() as int
    } else {
        stem_end(p, i - 1)
    }
}

proof fn lemma_stem_end(p: Seq<char>, i: int)
    requires
        0 <= i <= p.len(),
    ensures
        0 <= stem_end(p, i) <= p.len(),
    decreases i,
{
    if i > 0 && p[i - 1] != '.' && p[i - 1] != '/' {
        lemma_stem_end(p, i - 1);
    }
}

/// The output path of a model: its source path with the extension
/// replaced by the schema suffix.
pub open spec fn spec_output_path(p: Seq<char>) -> Seq<char> {
    p.take(stem_end(p, p.len() as int)) + "_schema.yml"@
}

/// Derives a model's output path from its source file path.
pub fn derive_output_path(p: &str) -> (r: String)
    ensures
        r@ == spec_output_path(p@),
{
    let n = p.unicode_len();
    let mut i = n;
    let mut stem = n;
    let mut found = false;
    while i > 0 && !found
        invariant
            i <= n,
            n == p@.len(),
            !found ==> stem_end(p@, n as int) == stem_end(p@, i as int) && stem == n,
            found ==> stem as int == stem_end(p@, n as int) && stem <= n,
        decreases i + (if found { 0int } else { 1int }),
    {
        let c = p.get_char(i - 1);
        if c == '.' {
            stem = i - 1;
            found = true;
        } else if c == '/' {
            stem = n;
            found = true;
        } else {
            i -= 1;
        }
    }
    proof {
        lemma_stem_end(p@, n as int);
        assert(stem as int == stem_end(p@, n as int));
    }
    let stem_str = p.substring_char(0, stem);
    let mut out = stem_str.to_owned();
    out.append("_schema.yml");
    proof {
        assert(p@.take(stem as int) == p@.subrange(0, stem as int));
    }
    out
}

/// What one model's processing yields: its resolved schema and the parse
/// diagnostic for its compiled query text.
pub struct ModelOutcome {
    pub schema: ResolvedModelSchema,
    /// True when the compiled query text did not parse; the model still
    /// produces output from the remaining sources.
    pub parse_failed: bool,
}

/// The resolved schema one model yields for a given introspection result.
pub open spec fn spec_process_model(
    n: NodeModel,
    intro: Option<Seq<MetadataModel>>,
) -> SchemaModel {
    SchemaModel {
        model_name: n.name,
        output_path: spec_output_path(n.original_file_path),
        columns: spec_resolve(node_decls(n), intro, parsed_names(n.compiled_code)),
    }
}

/// Processes one model: extracts column references from its compiled
/// query text and resolves them with the declared columns and the given
/// introspection result.
pub fn process_model(node: &Node, introspected: &Option<Vec<ColumnMetadata>>) -> (out:
    ModelOutcome)
    ensures
        out.schema@ == spec_process_model(node@, metas_opt(*introspected)),
        out.parse_failed == (spec_extract(node@.compiled_code) is None),
{
    let parsed = extract(node.compiled_code.as_str());
    proof {
        if spec_extract(node@.compiled_code) is None {
            assert(names_of(parsed.columns@) =~= parsed_names(node@.compiled_code));
        }
    }
    let empty_decls: Vec<DeclaredColumn> = Vec::new();
    let cols = match &node.declared_columns {
        Some(ds) => resolve_columns(ds, introspected, &parsed.columns),
        None => {
            proof {
                assert(decls_of(empty_decls@) =~= node_decls(node@));
            }
            resolve_columns(&empty_decls, introspected, &parsed.columns)
        },
    };
    let schema = ResolvedModelSchema {
        model_name: node.name.clone(),
        output_path: derive_output_path(node.original_file_path.as_str()),
        columns: cols,
    };
    proof {
        assert(schema@ =~= spec_process_model(node@, metas_opt(*introspected)));
    }
    ModelOutcome { schema, parse_failed: parsed.parse_failed }
}

/// True for the manifest nodes that are in scope: resource type `model`.
pub fn is_model_node(node: &Node) -> (r: bool)
    ensures
        r == (node@.resource_type == "model"@),
{
    let kind: String = "model".to_owned();
    node.resource_type.eq(&kind)
}

/// The images of a node sequence.
pub open spec fn nodes_of(v: Seq<Node>) -> Seq<NodeModel> {
    v.map_values(|n: Node| n@)
}

/// The nodes in scope: those whose resource type is `model`.
pub open spec fn models_of(ns: Seq<NodeModel>) -> Seq<NodeModel> {
    ns.filter(|n: NodeModel| n.resource_type == "model"@)
}

/// What processing owes for one model node: the resolved schema that
/// `spec_process_model` gives with introspection unavailable, and the
/// parse diagnostic of its compiled query text.
pub open spec fn outcome_ok(o: ModelOutcome, n: NodeModel) -> bool {
    o.schema@ == spec_process_model(n, None) && o.parse_failed == (spec_extract(
        n.compiled_code,
    ) is None)
}

/// Processes every model node of a manifest, in manifest order, with
/// introspection unavailable for the whole run.
pub fn process_nodes(nodes: &Vec<Node>) -> (outs: Vec<ModelOutcome>)
    ensures
        outs@.len() == models_of(nodes_of(nodes@)).len(),
        forall|k: int|
            0 <= k < outs@.len() ==> outcome_ok(
                #[trigger] outs@[k],
                models_of(nodes_of(nodes@))[k],
            ),
{
    let n = nodes.len();
    let mut outs: Vec<ModelOutcome> = Vec::new();
    let mut i: usize = 0;
    proof {
        assert(nodes_of(nodes@).take(0) =~= Seq::<NodeModel>::empty());
        assert(models_of(nodes_of(nodes@).take(0)) =~= Seq::<NodeModel>::empty());
    }
    while i < n
        invariant
            i <= n,
            n == nodes@.len(),
            outs@.len() == models_of(nodes_of(nodes@).take(i as int)).len(),
            forall|k: int|
                0 <= k < outs@.len() ==> outcome_ok(
                    #[trigger] outs@[k],
                    models_of(nodes_of(nodes@).take(i as int))[k],
                ),
        decreases n - i,
    {
        let ghost prefix = models_of(nodes_of(nodes@).take(i as int));
        let ghost cur = models_of(nodes_of(nodes@).take(i + 1));
        let ghost prev_outs = outs@;
        let node = &nodes[i];
        if is_model_node(node) {
            proof {
                reveal(Seq::filter);
                assert(nodes_of(nodes@).take(i + 1).drop_last() =~= nodes_of(nodes@).take(
                    i as int,
                ));
                assert(nodes_of(nodes@).take(i + 1).last() == nodes@[i as int]@);
                assert(cur =~= prefix.push(nodes@[i as int]@));
            }
            let none_meta: Option<Vec<ColumnMetadata>> = None;
            let out = process_model(node, &none_meta);
            proof {
                assert(outcome_ok(out, nodes@[i as int]@));
            }
            outs.push(out);
            proof {
                assert forall|k: int| 0 <= k < outs@.len() implies outcome_ok(
                    #[trigger] outs@[k],
                    cur[k],
                ) by {
                    if k < prev_outs.len() {
                        assert(outs@[k] == prev_outs[k]);
                        assert(cur[k] == prefix[k]);
                    } else {
                        assert(outs@[k] == out);
                        assert(cur[k] == nodes@[i as int]@);
                    }
                }
            }
        } else {
            proof {
                reveal(Seq::filter);
                assert(nodes_of(nodes@).take(i + 1).drop_last() =~= nodes_of(nodes@).take(
                    i as int,
                ));
                assert(nodes_of(nodes@).take(i + 1).last() == nodes@[i as int]@);
                assert(cur =~= prefix);
            }
        }
        i += 1;
    }
    proof {
        assert(nodes_of(nodes@).take(n as int) =~= nodes_of(nodes@));
    }
    outs
}

impl Manifest {
    /// The backend the manifest's adapter marker selects; `None` makes
    /// introspection unavailable for the whole run without aborting it.
    pub fn adapter(&self) -> (r: Option<SupportedAdapters>)
        ensures
            r == spec_adapter_of(self.metadata.adapter_type@),
    {
        SupportedAdapters::from_str(self.metadata.adapter_type.as_str())
    }
}

/// Processes every model node of a manifest, with introspection
/// unavailable for the whole run.
pub fn process_manifest(manifest: &Manifest) -> (outs: Vec<ModelOutcome>)
    ensures
        outs@.len() == models_of(nodes_of(manifest.nodes@)).len(),
        forall|k: int|
            0 <= k < outs@.len() ==> outcome_ok(
                #[trigger] outs@[k],
                models_of(nodes_of(manifest.nodes@))[k],
            ),
{
    process_nodes(&manifest.nodes)
}

/// The aggregate report of one run.
#[derive(Debug, PartialEq, Eq, Structural)]
pub struct RunSummary {
    /// Model nodes that produced output.
    pub processed: u64,
    /// Nodes left out of scope or undecodable.
    pub skipped: u64,
    /// Models whose compiled query text did not parse.
    pub parse_failures: u64,
}

impl RunSummary {
    /// A summary with nothing recorded yet.
    pub fn new() -> (r: RunSummary)
        ensures
            r.processed == 0 && r.skipped == 0 && r.parse_failures == 0,
    {
        RunSummary { processed: 0, skipped: 0, parse_failures: 0 }
    }

    /// Records one model that produced output.
    pub fn record_processed(&mut self)
        requires
            old(self).processed < u64::MAX,
        ensures
            final(self).processed == old(self).processed + 1,
            final(self).skipped == old(self).skipped,
            final(self).parse_failures == old(self).parse_failures,
    {
        self.processed = self.processed + 1;
    }

    /// Records one node left out of scope.
    pub fn record_skipped(&mut self)
        requires
            old(self).skipped < u64::MAX,
        ensures
            final(self).skipped == old(self).skipped + 1,
            final(self).processed == old(self).processed,
            final(self).parse_failures == old(self).parse_failures,
    {
        self.skipped = self.skipped + 1;
    }

    /// Records one model whose query text did not parse.
    pub fn record_parse_failure(&mut self)
        requires
            old(self).parse_failures < u64::MAX,
        ensures
            final(self).parse_failures == old(self).parse_failures + 1,
            final(self).processed == old(self).processed,
            final(self).skipped == old(self).skipped,
    {
        self.parse_failures = self.parse_failures + 1;
    }
}

} // verus!
