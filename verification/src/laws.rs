//! The resolver's laws: uniqueness and completeness of resolved names,
//! the fixed test pair on declared columns, the shape of output when
//! introspection is unavailable, and determinism of resolution.

use vstd::prelude::*;
use crate::resolve::{
    apply_intro, apply_parsed, declared_col, declared_cols, default_tests, find_from, has_name,
    intro_col, intro_step, lemma_find_from, lemma_has_name_index, parsed_col, parsed_step,
    spec_resolve,
};
use crate::schema::{ColumnModel, ColumnSource, DeclaredModel, MetadataModel, NodeModel};
use crate::pipeline::spec_process_model;
use crate::emit::spec_render;

verus! {

/// No two resolved columns carry the same name.
pub open spec fn distinct_names(cols: Seq<ColumnModel>) -> bool {
    forall|i: int, j: int| 0 <= i < j < cols.len() ==> cols[i].name != cols[j].name
}

/// No two declared columns carry the same name; the manifest stores
/// declared columns as a mapping, so this holds of every decoded node.
pub open spec fn distinct_decl_names(ds: Seq<DeclaredModel>) -> bool {
    forall|i: int, j: int| 0 <= i < j < ds.len() ==> ds[i].name != ds[j].name
}

proof fn lemma_declared_cols(ds: Seq<DeclaredModel>)
    ensures
        declared_cols(ds).len() == ds.len(),
        forall|j: int| 0 <= j < ds.len() ==> #[trigger] declared_cols(ds)[j] == declared_col(
            ds[j],
        ),
        distinct_decl_names(ds) ==> distinct_names(declared_cols(ds)),
        forall|d: int| 0 <= d < ds.len() ==> has_name(declared_cols(ds), #[trigger] ds[d].name),
        forall|nm: Seq<char>|
            has_name(declared_cols(ds), nm) ==> exists|d: int|
                0 <= d < ds.len() && #[trigger] ds[d].name == nm,
{
    let cs = declared_cols(ds);
    assert forall|d: int| 0 <= d < ds.len() implies has_name(cs, #[trigger] ds[d].name) by {
        lemma_has_name_index(cs, ds[d].name);
        assert(cs[d].name == ds[d].name);
    }
    assert forall|nm: Seq<char>| has_name(cs, nm) implies exists|d: int|
        0 <= d < ds.len() && #[trigger] ds[d].name == nm by {
        lemma_has_name_index(cs, nm);
        let k = choose|k: int| 0 <= k < cs.len() && cs[k].name == nm;
        assert(ds[k].name == nm);
    }
}

proof fn lemma_intro_step(cols: Seq<ColumnModel>, m: MetadataModel)
    ensures
        cols.len() <= intro_step(cols, m).len() <= cols.len() + 1,
        forall|j: int|
            0 <= j < cols.len() ==> (#[trigger] intro_step(cols, m)[j].name == cols[j].name
                && intro_step(cols, m)[j].tags == cols[j].tags && intro_step(cols, m)[j].tests
                == cols[j].tests && intro_step(cols, m)[j].source == cols[j].source),
        forall|j: int|
            cols.len() <= j < intro_step(cols, m).len() ==> #[trigger] intro_step(cols, m)[j]
                == intro_col(m),
        has_name(intro_step(cols, m), m.column_name),
        forall|nm: Seq<char>| has_name(cols, nm) ==> has_name(intro_step(cols, m), nm),
        forall|nm: Seq<char>|
            has_name(intro_step(cols, m), nm) ==> has_name(cols, nm) || nm == m.column_name,
        distinct_names(cols) ==> distinct_names(intro_step(cols, m)),
{
    let r = intro_step(cols, m);
    let k = find_from(cols, 0, m.column_name);
    lemma_find_from(cols, 0, m.column_name);
    lemma_has_name_index(r, m.column_name);
    if k < cols.len() {
        assert(r[k].name == m.column_name);
    } else {
        assert(r[cols.len() as int].name == m.column_name);
    }
    assert forall|nm: Seq<char>| has_name(cols, nm) implies has_name(r, nm) by {
        lemma_has_name_index(cols, nm);
        lemma_has_name_index(r, nm);
        let w = choose|w: int| 0 <= w < cols.len() && cols[w].name == nm;
        assert(r[w].name == nm);
    }
    assert forall|nm: Seq<char>| has_name(r, nm) implies has_name(cols, nm) || nm
        == m.column_name by {
        lemma_has_name_index(cols, nm);
        lemma_has_name_index(r, nm);
        let w = choose|w: int| 0 <= w < r.len() && r[w].name == nm;
        if w < cols.len() {
            assert(cols[w].name == nm);
        }
    }
    if distinct_names(cols) {
        if k == cols.len() {
            assert forall|i: int, j: int| 0 <= i < j < r.len() implies r[i].name != r[j].name by {
                if j < cols.len() {
                } else {
                    assert(r[j].name == m.column_name);
                    assert(cols[i].name != m.column_name);
                }
            }
        }
    }
}

#[verifier::rlimit(60)]
proof fn lemma_apply_intro(cols: Seq<ColumnModel>, ms: Seq<MetadataModel>)
    ensures
        cols.len() <= apply_intro(cols, ms).len(),
        forall|j: int|
            0 <= j < cols.len() ==> (#[trigger] apply_intro(cols, ms)[j].name == cols[j].name
                && apply_intro(cols, ms)[j].tags == cols[j].tags && apply_intro(cols, ms)[j].tests
                == cols[j].tests && apply_intro(cols, ms)[j].source == cols[j].source),
        forall|j: int|
            cols.len() <= j < apply_intro(cols, ms).len() ==> (#[trigger] apply_intro(
                cols,
                ms,
            )[j].source == ColumnSource::Introspected && apply_intro(cols, ms)[j].tags
                == Seq::<Seq<char>>::empty() && apply_intro(cols, ms)[j].tests
                == Seq::<Seq<char>>::empty() && exists|x: int|
                0 <= x < ms.len() && #[trigger] ms[x].column_name == apply_intro(
                    cols,
                    ms,
                )[j].name),
        forall|x: int|
            0 <= x < ms.len() ==> has_name(apply_intro(cols, ms), #[trigger] ms[x].column_name),
        forall|nm: Seq<char>| has_name(cols, nm) ==> has_name(apply_intro(cols, ms), nm),
        forall|nm: Seq<char>|
            has_name(apply_intro(cols, ms), nm) ==> has_name(cols, nm) || exists|x: int|
                0 <= x < ms.len() && #[trigger] ms[x].column_name == nm,
        distinct_names(cols) ==> distinct_names(apply_intro(cols, ms)),
    decreases ms.len(),
{
    if ms.len() == 0 {
        assert(apply_intro(cols, ms) == cols);
        assert forall|j: int| 0 <= j < cols.len() implies (#[trigger] apply_intro(
            cols,
            ms,
        )[j].name == cols[j].name && apply_intro(cols, ms)[j].tags == cols[j].tags && apply_intro(
            cols,
            ms,
        )[j].tests == cols[j].tests && apply_intro(cols, ms)[j].source == cols[j].source) by {
            assert(apply_intro(cols, ms)[j] == cols[j]);
        }
    } else {
        let c1 = intro_step(cols, ms[0]);
        lemma_intro_step(cols, ms[0]);
        lemma_apply_intro(c1, ms.skip(1));
        assert(apply_intro(cols, ms) == apply_intro(c1, ms.skip(1)));
        assert forall|j: int| 0 <= j < cols.len() implies (#[trigger] apply_intro(
            cols,
            ms,
        )[j].name == cols[j].name && apply_intro(cols, ms)[j].tags == cols[j].tags && apply_intro(
            cols,
            ms,
        )[j].tests == cols[j].tests && apply_intro(cols, ms)[j].source == cols[j].source) by {
            assert(apply_intro(c1, ms.skip(1))[j].name == c1[j].name);
            assert(intro_step(cols, ms[0])[j].name == cols[j].name);
        }
        assert forall|j: int| cols.len() <= j < apply_intro(cols, ms).len() implies (
        #[trigger] apply_intro(cols, ms)[j].source == ColumnSource::Introspected && apply_intro(
            cols,
            ms,
        )[j].tags == Seq::<Seq<char>>::empty() && apply_intro(cols, ms)[j].tests
            == Seq::<Seq<char>>::empty() && exists|x: int|
            0 <= x < ms.len() && #[trigger] ms[x].column_name == apply_intro(
                cols,
                ms,
            )[j].name) by {
            if j < c1.len() {
                assert(apply_intro(c1, ms.skip(1))[j].name == c1[j].name);
                assert(c1[j] == intro_col(ms[0]));
                assert(ms[0].column_name == apply_intro(cols, ms)[j].name);
            } else {
                assert(apply_intro(c1, ms.skip(1))[j].source == ColumnSource::Introspected);
                let x = choose|x: int|
                    0 <= x < ms.skip(1).len() && #[trigger] ms.skip(1)[x].column_name
                        == apply_intro(c1, ms.skip(1))[j].name;
                assert(ms[x + 1].column_name == apply_intro(cols, ms)[j].name);
            }
        }
        assert forall|x: int| 0 <= x < ms.len() implies has_name(
            apply_intro(cols, ms),
            #[trigger] ms[x].column_name,
        ) by {
            if x == 0 {
                assert(has_name(c1, ms[0].column_name));
                assert(has_name(apply_intro(c1, ms.skip(1)), ms[0].column_name));
            } else {
                assert(ms.skip(1)[x - 1] == ms[x]);
                assert(has_name(apply_intro(c1, ms.skip(1)), ms.skip(1)[x - 1].column_name));
            }
        }
        assert forall|nm: Seq<char>| has_name(cols, nm) implies has_name(
            apply_intro(cols, ms),
            nm,
        ) by {
            assert(has_name(c1, nm));
            assert(has_name(apply_intro(c1, ms.skip(1)), nm));
        }
        assert forall|nm: Seq<char>| has_name(apply_intro(cols, ms), nm) implies has_name(
            cols,
            nm,
        ) || exists|x: int| 0 <= x < ms.len() && #[trigger] ms[x].column_name == nm by {
            assert(has_name(apply_intro(c1, ms.skip(1)), nm));
            if has_name(c1, nm) {
                if !has_name(cols, nm) {
                    assert(nm == ms[0].column_name);
                }
            } else {
                let x = choose|x: int|
                    0 <= x < ms.skip(1).len() && #[trigger] ms.skip(1)[x].column_name == nm;
                assert(ms[x + 1].column_name == nm);
            }
        }
        if distinct_names(cols) {
            assert(distinct_names(c1));
            assert(distinct_names(apply_intro(c1, ms.skip(1))));
        }
    }
}

proof fn lemma_parsed_step(cols: Seq<ColumnModel>, nm0: Seq<char>)
    ensures
        cols.len() <= parsed_step(cols, nm0).len() <= cols.len() + 1,
        forall|j: int| 0 <= j < cols.len() ==> #[trigger] parsed_step(cols, nm0)[j] == cols[j],
        forall|j: int|
            cols.len() <= j < parsed_step(cols, nm0).len() ==> #[trigger] parsed_step(
                cols,
                nm0,
            )[j] == parsed_col(nm0),
        has_name(parsed_step(cols, nm0), nm0),
        forall|nm: Seq<char>| has_name(cols, nm) ==> has_name(parsed_step(cols, nm0), nm),
        forall|nm: Seq<char>|
            has_name(parsed_step(cols, nm0), nm) ==> has_name(cols, nm) || nm == nm0,
        distinct_names(cols) ==> distinct_names(parsed_step(cols, nm0)),
{
    let r = parsed_step(cols, nm0);
    let k = find_from(cols, 0, nm0);
    lemma_find_from(cols, 0, nm0);
    lemma_has_name_index(r, nm0);
    if k < cols.len() {
        assert(r[k].name == nm0);
    } else {
        assert(r[cols.len() as int].name == nm0);
    }
    assert forall|nm: Seq<char>| has_name(cols, nm) implies has_name(r, nm) by {
        lemma_has_name_index(cols, nm);
        lemma_has_name_index(r, nm);
        let w = choose|w: int| 0 <= w < cols.len() && cols[w].name == nm;
        assert(r[w].name == nm);
    }
    assert forall|nm: Seq<char>| has_name(r, nm) implies has_name(cols, nm) || nm == nm0 by {
        lemma_has_name_index(cols, nm);
        lemma_has_name_index(r, nm);
        let w = choose|w: int| 0 <= w < r.len() && r[w].name == nm;
        if w < cols.len() {
            assert(cols[w].name == nm);
        }
    }
    if distinct_names(cols) && k == cols.len() {
        assert forall|i: int, j: int| 0 <= i < j < r.len() implies r[i].name != r[j].name by {
            if j < cols.len() {
            } else {
                assert(r[j].name == nm0);
                assert(cols[i].name != nm0);
            }
        }
    }
}

proof fn lemma_apply_parsed(cols: Seq<ColumnModel>, ns: Seq<Seq<char>>)
    ensures
        cols.len() <= apply_parsed(cols, ns).len(),
        forall|j: int| 0 <= j < cols.len() ==> #[trigger] apply_parsed(cols, ns)[j] == cols[j],
        forall|j: int|
            cols.len() <= j < apply_parsed(cols, ns).len() ==> (#[trigger] apply_parsed(
                cols,
                ns,
            )[j].source == ColumnSource::Parsed && apply_parsed(cols, ns)[j].tags
                == Seq::<Seq<char>>::empty() && apply_parsed(cols, ns)[j].tests
                == Seq::<Seq<char>>::empty() && apply_parsed(cols, ns)[j].data_type is None
                && ns.contains(apply_parsed(cols, ns)[j].name)),
        forall|x: int| 0 <= x < ns.len() ==> has_name(apply_parsed(cols, ns), #[trigger] ns[x]),
        forall|nm: Seq<char>| has_name(cols, nm) ==> has_name(apply_parsed(cols, ns), nm),
        forall|nm: Seq<char>|
            has_name(apply_parsed(cols, ns), nm) ==> has_name(cols, nm) || ns.contains(nm),
        distinct_names(cols) ==> distinct_names(apply_parsed(cols, ns)),
    decreases ns.len(),
{
    let r = apply_parsed(cols, ns);
    if ns.len() == 0 {
    } else {
        let c1 = parsed_step(cols, ns[0]);
        lemma_parsed_step(cols, ns[0]);
        lemma_apply_parsed(c1, ns.skip(1));
        assert(r == apply_parsed(c1, ns.skip(1)));
        assert forall|j: int| cols.len() <= j < r.len() implies (#[trigger] r[j].source
            == ColumnSource::Parsed && r[j].tags == Seq::<Seq<char>>::empty() && r[j].tests
            == Seq::<Seq<char>>::empty() && r[j].data_type is None && ns.contains(r[j].name)) by {
            if j < c1.len() {
                assert(c1[j] == parsed_col(ns[0]));
                assert(r[j] == c1[j]);
                assert(ns[0] == r[j].name);
            } else {
                assert(ns.skip(1).contains(r[j].name));
                let x = choose|x: int| 0 <= x < ns.skip(1).len() && ns.skip(1)[x] == r[j].name;
                assert(ns[x + 1] == r[j].name);
            }
        }
        assert forall|x: int| 0 <= x < ns.len() implies has_name(r, #[trigger] ns[x]) by {
            if x == 0 {
                assert(has_name(c1, ns[0]));
            } else {
                assert(ns.skip(1)[x - 1] == ns[x]);
                assert(has_name(r, ns.skip(1)[x - 1]));
            }
        }
        assert forall|nm: Seq<char>| has_name(r, nm) implies has_name(cols, nm) || ns.contains(
            nm,
        ) by {
            if has_name(c1, nm) {
                if !has_name(cols, nm) {
                    assert(nm == ns[0]);
                }
            } else {
                assert(ns.skip(1).contains(nm));
                let x = choose|x: int| 0 <= x < ns.skip(1).len() && ns.skip(1)[x] == nm;
                assert(ns[x + 1] == nm);
            }
        }
    }
}

/// Law: a model's resolved column list has no duplicate names, every
/// declared, introspected, and parsed name is present, and every resolved
/// name came from one of the three sources — so each source name appears
/// exactly once.
pub proof fn lemma_resolved_names(
    decls: Seq<DeclaredModel>,
    intro: Option<Seq<MetadataModel>>,
    parsed: Seq<Seq<char>>,
)
    requires
        distinct_decl_names(decls),
    ensures
        distinct_names(spec_resolve(decls, intro, parsed)),
        forall|d: int|
            0 <= d < decls.len() ==> has_name(
                spec_resolve(decls, intro, parsed),
                #[trigger] decls[d].name,
            ),
        match intro {
            Some(ms) => forall|x: int|
                0 <= x < ms.len() ==> has_name(
                    spec_resolve(decls, Some(ms), parsed),
                    #[trigger] ms[x].column_name,
                ),
            None => true,
        },
        forall|p: int|
            0 <= p < parsed.len() ==> has_name(
                spec_resolve(decls, intro, parsed),
                #[trigger] parsed[p],
            ),
        forall|nm: Seq<char>|
            has_name(spec_resolve(decls, intro, parsed), nm) ==> (exists|d: int|
                0 <= d < decls.len() && #[trigger] decls[d].name == nm) || (match intro {
                Some(ms) => exists|x: int|
                    0 <= x < ms.len() && #[trigger] ms[x].column_name == nm,
                None => false,
            }) || parsed.contains(nm),
{
    let base = declared_cols(decls);
    lemma_declared_cols(decls);
    let merged = match intro {
        Some(ms) => apply_intro(base, ms),
        None => base,
    };
    match intro {
        Some(ms) => {
            lemma_apply_intro(base, ms);
        },
        None => {},
    }
    lemma_apply_parsed(merged, parsed);
    let r = spec_resolve(decls, intro, parsed);
    assert forall|nm: Seq<char>| has_name(r, nm) implies (exists|d: int|
        0 <= d < decls.len() && #[trigger] decls[d].name == nm) || (match intro {
        Some(ms) => exists|x: int| 0 <= x < ms.len() && #[trigger] ms[x].column_name == nm,
        None => false,
    }) || parsed.contains(nm) by {
        assert(has_name(apply_parsed(merged, parsed), nm));
        if !parsed.contains(nm) {
            assert(has_name(merged, nm));
            match intro {
                Some(ms) => {
                    assert(has_name(apply_intro(base, ms), nm));
                    if !(exists|x: int|
                        0 <= x < ms.len() && #[trigger] ms[x].column_name == nm) {
                        assert(has_name(base, nm));
                    }
                },
                None => {
                    assert(has_name(base, nm));
                },
            }
        }
    }
}

/// Law: every declared column stands at its manifest position in the
/// resolved list, with its declared tags, the fixed test pair
/// `(not_null, unique)` in that order, and the declared source mark.
pub proof fn lemma_declared_columns_kept(
    decls: Seq<DeclaredModel>,
    intro: Option<Seq<MetadataModel>>,
    parsed: Seq<Seq<char>>,
)
    ensures
        spec_resolve(decls, intro, parsed).len() >= decls.len(),
        forall|j: int|
            0 <= j < decls.len() ==> (#[trigger] spec_resolve(decls, intro, parsed)[j].name
                == decls[j].name && spec_resolve(decls, intro, parsed)[j].tags == decls[j].tags
                && spec_resolve(decls, intro, parsed)[j].tests == default_tests() && spec_resolve(
                decls,
                intro,
                parsed,
            )[j].source == ColumnSource::Declared),
{
    let base = declared_cols(decls);
    lemma_declared_cols(decls);
    let merged = match intro {
        Some(ms) => apply_intro(base, ms),
        None => base,
    };
    match intro {
        Some(ms) => {
            lemma_apply_intro(base, ms);
        },
        None => {},
    }
    lemma_apply_parsed(merged, parsed);
}

/// Law: when introspection is unavailable, the output still holds all
/// declared and parsed columns — declared ones first with the fixed test
/// pair, then every parsed name not already declared, bare, with no
/// tests, no tags, and no metadata.
pub proof fn lemma_introspection_unavailable(decls: Seq<DeclaredModel>, parsed: Seq<Seq<char>>)
    requires
        distinct_decl_names(decls),
    ensures
        spec_resolve(decls, None, parsed).len() >= decls.len(),
        forall|j: int|
            0 <= j < decls.len() ==> (#[trigger] spec_resolve(decls, None, parsed)[j].name
                == decls[j].name && spec_resolve(decls, None, parsed)[j].tests == default_tests()),
        forall|j: int|
            decls.len() <= j < spec_resolve(decls, None, parsed).len() ==> (#[trigger] spec_resolve(
                decls,
                None,
                parsed,
            )[j].source == ColumnSource::Parsed && spec_resolve(decls, None, parsed)[j].tests
                == Seq::<Seq<char>>::empty() && spec_resolve(decls, None, parsed)[j].tags
                == Seq::<Seq<char>>::empty() && parsed.contains(
                spec_resolve(decls, None, parsed)[j].name,
            )),
        forall|d: int|
            0 <= d < decls.len() ==> has_name(
                spec_resolve(decls, None, parsed),
                #[trigger] decls[d].name,
            ),
        forall|p: int|
            0 <= p < parsed.len() ==> has_name(
                spec_resolve(decls, None, parsed),
                #[trigger] parsed[p],
            ),
{
    let base = declared_cols(decls);
    lemma_declared_cols(decls);
    lemma_apply_parsed(base, parsed);
}

/// Law: resolution is a function of the manifest node and the
/// introspection result alone — two runs over equal inputs yield equal
/// resolved schemas and byte-identical rendered documents, so an
/// unchanged manifest and an unchanged catalog give identical output.
pub proof fn lemma_resolution_deterministic(
    n1: NodeModel,
    n2: NodeModel,
    i1: Option<Seq<MetadataModel>>,
    i2: Option<Seq<MetadataModel>>,
)
    requires
        n1 == n2,
        i1 == i2,
    ensures
        spec_process_model(n1, i1) == spec_process_model(n2, i2),
        spec_render(spec_process_model(n1, i1)) == spec_render(spec_process_model(n2, i2)),
{
}

} // verus!
