//! The schema resolver: merges declared, introspected, and parsed columns
//! into one ordered, de-duplicated column list per model.
//!
//! Precedence is fixed: declared columns come first, in manifest order,
//! each with the default test pair; introspected columns follow in catalog
//! order, enriching the metadata of names already present and appending
//! the rest; parsed columns come last and contribute bare names only.
//! A column is never dropped once added, only enriched.

use vstd::prelude::*;
use crate::schema::{
    ColumnMetadata, ColumnModel, ColumnSource, DeclaredColumn, DeclaredModel, MetadataModel,
    ResolvedColumn, cols_of, decls_of, metas_of,
};
use crate::extract::names_of;

verus! {

/// The fixed default test pair every declared column receives.
pub open spec fn default_tests() -> Seq<Seq<char>> {
    seq!["not_null"@, "unique"@]
}

/// The position of the first column at or after `i` that carries `name`,
/// else the length.
pub open spec fn find_from(cols: Seq<ColumnModel>, i: int, name: Seq<char>) -> int
    decreases cols.len() - i when 0 <= i <= cols.len()
{
    if i >= cols.len() {
        cols.len() as int
    } else if cols[i].name == name {
        i
    } else {
        find_from(cols, i + 1, name)
    }
}

/// True when some column carries `name`.
pub open spec fn has_name(cols: Seq<ColumnModel>, name: Seq<char>) -> bool {
    find_from(cols, 0, name) < cols.len()
}

pub proof fn lemma_find_from(cols: Seq<ColumnModel>, i: int, name: Seq<char>)
    requires
        0 <= i <= cols.len(),
    ensures
        i <= find_from(cols, i, name) <= cols.len(),
        find_from(cols, i, name) < cols.len() ==> cols[find_from(cols, i, name)].name == name,
        forall|k: int| i <= k < find_from(cols, i, name) ==> cols[k].name != name,
    decreases cols.len() - i,
{
    if i < cols.len() && cols[i].name != name {
        lemma_find_from(cols, i + 1, name);
    }
}

/// The presence of a name looks the same from the front as from any
/// position before the first match.
pub proof fn lemma_has_name_index(cols: Seq<ColumnModel>, name: Seq<char>)
    ensures
        has_name(cols, name) <==> exists|k: int| 0 <= k < cols.len() && cols[k].name == name,
{
    lemma_find_from(cols, 0, name);
    if has_name(cols, name) {
        assert(cols[find_from(cols, 0, name)].name == name);
    }
    if exists|k: int| 0 <= k < cols.len() && cols[k].name == name {
        let k = choose|k: int| 0 <= k < cols.len() && cols[k].name == name;
        assert(!(k < find_from(cols, 0, name)));
    }
}

/// The column a manifest declaration contributes: its tags and the
/// default test pair, no metadata yet.
pub open spec fn declared_col(d: DeclaredModel) -> ColumnModel {
    ColumnModel {
        name: d.name,
        tags: d.tags,
        tests: default_tests(),
        data_type: None,
        char_max_length: None,
        numeric_precision: None,
        numeric_scale: None,
        source: ColumnSource::Declared,
    }
}

/// The columns all declarations contribute, in manifest order.
pub open spec fn declared_cols(ds: Seq<DeclaredModel>) -> Seq<ColumnModel> {
    ds.map_values(|d: DeclaredModel| declared_col(d))
}

/// A column enriched with introspected metadata; name, tags, tests, and
/// source are left untouched.
pub open spec fn enrich(c: ColumnModel, m: MetadataModel) -> ColumnModel {
    ColumnModel {
        data_type: Some(m.data_type),
        char_max_length: m.character_maximum_length,
        numeric_precision: m.numeric_precision,
        numeric_scale: m.numeric_scale,
        ..c
    }
}

/// The column a catalog row contributes when its name is new: full
/// metadata, no tags, no tests.
pub open spec fn intro_col(m: MetadataModel) -> ColumnModel {
    ColumnModel {
        name: m.column_name,
        tags: seq![],
        tests: seq![],
        data_type: Some(m.data_type),
        char_max_length: m.character_maximum_length,
        numeric_precision: m.numeric_precision,
        numeric_scale: m.numeric_scale,
        source: ColumnSource::Introspected,
    }
}

/// One catalog row merged into the list.
pub open spec fn intro_step(cols: Seq<ColumnModel>, m: MetadataModel) -> Seq<ColumnModel> {
    let k = find_from(cols, 0, m.column_name);
    if k < cols.len() {
        cols.update(k, enrich(cols[k], m))
    } else {
        cols.push(intro_col(m))
    }
}

/// All catalog rows merged, in catalog order.
pub open spec fn apply_intro(cols: Seq<ColumnModel>, ms: Seq<MetadataModel>) -> Seq<ColumnModel>
    decreases ms.len()
{
    if ms.len() == 0 {
        cols
    } else {
        apply_intro(intro_step(cols, ms[0]), ms.skip(1))
    }
}

/// The column a parsed name contributes when it is new: the bare name.
pub open spec fn parsed_col(name: Seq<char>) -> ColumnModel {
    ColumnModel {
        name: name,
        tags: seq![],
        tests: seq![],
        data_type: None,
        char_max_length: None,
        numeric_precision: None,
        numeric_scale: None,
        source: ColumnSource::Parsed,
    }
}

/// One parsed name merged into the list.
pub open spec fn parsed_step(cols: Seq<ColumnModel>, name: Seq<char>) -> Seq<ColumnModel> {
    if find_from(cols, 0, name) < cols.len() {
        cols
    } else {
        cols.push(parsed_col(name))
    }
}

/// All parsed names merged, in extraction order.
pub open spec fn apply_parsed(cols: Seq<ColumnModel>, ns: Seq<Seq<char>>) -> Seq<ColumnModel>
    decreases ns.len()
{
    if ns.len() == 0 {
        cols
    } else {
        apply_parsed(parsed_step(cols, ns[0]), ns.skip(1))
    }
}

/// The resolved column list of one model: declared columns first, then
/// introspected metadata merged in (when introspection was available),
/// then parsed names as a bare fallback.
pub open spec fn spec_resolve(
    decls: Seq<DeclaredModel>,
    intro: Option<Seq<MetadataModel>>,
    parsed: Seq<Seq<char>>,
) -> Seq<ColumnModel> {
    let base = declared_cols(decls);
    let merged = match intro {
        Some(ms) => apply_intro(base, ms),
        None => base,
    };
    apply_parsed(merged, parsed)
}

/// An equal copy of a string vector.
fn clone_strings(v: &Vec<String>) -> (r: Vec<String>)
    ensures
        r@ == v@,
{
    let n = v.len();
    let mut r: Vec<String> = Vec::new();
    let mut j: usize = 0;
    while j < n
        invariant
            j <= n,
            n == v@.len(),
            r@ == v@.take(j as int),
        decreases n - j,
    {
        r.push(v[j].clone());
        proof {
            assert(v@.take(j + 1) =~= v@.take(j as int).push(v@[j as int]));
        }
        j += 1;
    }
    proof {
        assert(v@.take(n as int) =~= v@);
    }
    r
}

/// The default test pair as a vector.
fn default_tests_vec() -> (r: Vec<String>)
    ensures
        r.deep_view() == default_tests(),
{
    let mut r: Vec<String> = Vec::new();
    r.push("not_null".to_owned());
    r.push("unique".to_owned());
    proof {
        assert(r.deep_view() =~= default_tests());
    }
    r
}

/// The position of the first resolved column carrying `name`, else the
/// length.
fn find_name(cols: &Vec<ResolvedColumn>, name: &String) -> (k: usize)
    ensures
        k as int == find_from(cols_of(cols@), 0, name@),
        k <= cols@.len(),
{
    let n = cols.len();
    let mut j: usize = 0;
    while j < n
        invariant
            j <= n,
            n == cols@.len(),
            find_from(cols_of(cols@), 0, name@) == find_from(cols_of(cols@), j as int, name@),
        decreases n - j,
    {
        if cols[j].name.eq(name) {
            return j;
        }
        j += 1;
    }
    j
}

/// Merges declared, introspected, and parsed columns for one model.
pub fn resolve_columns(
    declared: &Vec<DeclaredColumn>,
    introspected: &Option<Vec<ColumnMetadata>>,
    parsed: &Vec<String>,
) -> (r: Vec<ResolvedColumn>)
    ensures
        cols_of(r@) == spec_resolve(
            decls_of(declared@),
            match introspected {
                Some(ms) => Some(metas_of(ms@)),
                None => None::<Seq<MetadataModel>>,
            },
            names_of(parsed@),
        ),
{
    let mut r: Vec<ResolvedColumn> = Vec::new();
    let dn = declared.len();
    let mut i: usize = 0;
    while i < dn
        invariant
            i <= dn,
            dn == declared@.len(),
            cols_of(r@) == declared_cols(decls_of(declared@).take(i as int)),
        decreases dn - i,
    {
        let d = &declared[i];
        let col = ResolvedColumn {
            name: d.name.clone(),
            tags: clone_strings(&d.tags),
            tests: default_tests_vec(),
            data_type: None,
            char_max_length: None,
            numeric_precision: None,
            numeric_scale: None,
            source: ColumnSource::Declared,
        };
        proof {
            assert(col@ =~= declared_col(decls_of(declared@)[i as int]));
            assert(cols_of(r@.push(col)) =~= cols_of(r@).push(col@));
            assert(declared_cols(decls_of(declared@).take(i + 1)) =~= declared_cols(
                decls_of(declared@).take(i as int),
            ).push(declared_col(decls_of(declared@)[i as int])));
        }
        r.push(col);
        i += 1;
    }
    proof {
        assert(decls_of(declared@).take(dn as int) =~= decls_of(declared@));
        assert(cols_of(r@) == declared_cols(decls_of(declared@)));
    }
    let ghost base = declared_cols(decls_of(declared@));
    match introspected {
        Some(ms) => {
            let ghost metas = metas_of(ms@);
            proof {
                assert(metas.skip(0) =~= metas);
            }
            let mn = ms.len();
            let mut x: usize = 0;
            while x < mn
                invariant
                    x <= mn,
                    mn == ms@.len(),
                    metas == metas_of(ms@),
                    apply_intro(cols_of(r@), metas.skip(x as int)) == apply_intro(base, metas),
                decreases mn - x,
            {
                let m = &ms[x];
                let ghost before = cols_of(r@);
                let k = find_name(&r, &m.column_name);
                if k < r.len() {
                    let name_c = r[k].name.clone();
                    let tags_c = clone_strings(&r[k].tags);
                    let tests_c = clone_strings(&r[k].tests);
                    let src = r[k].source;
                    let newcol = ResolvedColumn {
                        name: name_c,
                        tags: tags_c,
                        tests: tests_c,
                        data_type: Some(m.data_type.clone()),
                        char_max_length: m.character_maximum_length,
                        numeric_precision: m.numeric_precision,
                        numeric_scale: m.numeric_scale,
                        source: src,
                    };
                    proof {
                        assert(newcol@ =~= enrich(before[k as int], m@));
                    }
                    r[k] = newcol;
                    proof {
                        assert(cols_of(r@) =~= before.update(k as int, enrich(
                            before[k as int],
                            m@,
                        )));
                        assert(cols_of(r@) == intro_step(before, m@));
                    }
                } else {
                    let newcol = ResolvedColumn {
                        name: m.column_name.clone(),
                        tags: Vec::new(),
                        tests: Vec::new(),
                        data_type: Some(m.data_type.clone()),
                        char_max_length: m.character_maximum_length,
                        numeric_precision: m.numeric_precision,
                        numeric_scale: m.numeric_scale,
                        source: ColumnSource::Introspected,
                    };
                    proof {
                        assert(newcol@ =~= intro_col(m@));
                        assert(cols_of(r@.push(newcol)) =~= cols_of(r@).push(newcol@));
                    }
                    r.push(newcol);
                    proof {
                        assert(cols_of(r@) == intro_step(before, m@));
                    }
                }
                proof {
                    assert(metas.skip(x as int)[0] == m@);
                    assert(metas.skip(x as int).skip(1) =~= metas.skip(x + 1));
                    assert(apply_intro(before, metas.skip(x as int)) == apply_intro(
                        intro_step(before, m@),
                        metas.skip(x + 1),
                    ));
                }
                x += 1;
            }
            proof {
                assert(metas.skip(mn as int) =~= Seq::<MetadataModel>::empty());
                assert(apply_intro(cols_of(r@), metas.skip(mn as int)) == cols_of(r@));
            }
        },
        None => {},
    }
    let ghost merged = cols_of(r@);
    proof {
        assert(names_of(parsed@).skip(0) =~= names_of(parsed@));
    }
    let pn = parsed.len();
    let mut y: usize = 0;
    while y < pn
        invariant
            y <= pn,
            pn == parsed@.len(),
            apply_parsed(cols_of(r@), names_of(parsed@).skip(y as int)) == apply_parsed(
                merged,
                names_of(parsed@),
            ),
        decreases pn - y,
    {
        let ghost names = names_of(parsed@);
        let p = &parsed[y];
        let ghost before = cols_of(r@);
        let k = find_name(&r, p);
        if k >= r.len() {
            let newcol = ResolvedColumn {
                name: p.clone(),
                tags: Vec::new(),
                tests: Vec::new(),
                data_type: None,
                char_max_length: None,
                numeric_precision: None,
                numeric_scale: None,
                source: ColumnSource::Parsed,
            };
            proof {
                assert(newcol@ =~= parsed_col(p@));
                assert(cols_of(r@.push(newcol)) =~= cols_of(r@).push(newcol@));
            }
            r.push(newcol);
        }
        proof {
            assert(cols_of(r@) == parsed_step(before, names[y as int]));
            assert(names.skip(y as int)[0] == names[y as int]);
            assert(names.skip(y as int).skip(1) =~= names.skip(y + 1));
            assert(apply_parsed(before, names.skip(y as int)) == apply_parsed(
                parsed_step(before, names[y as int]),
                names.skip(y + 1),
            ));
        }
        y += 1;
    }
    proof {
        assert(names_of(parsed@).skip(pn as int) =~= Seq::<Seq<char>>::empty());
        assert(apply_parsed(cols_of(r@), names_of(parsed@).skip(pn as int)) == cols_of(r@));
    }
    r
}

} // verus!
