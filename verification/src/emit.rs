//! Rendering of a resolved model schema to its structured text document:
//! a version marker, the model entry, and its columns with their tests
//! and optional tags.  Writing the document to disk happens outside the
//! library; rendering itself is a pure function of the schema, which
//! makes repeated runs over an unchanged manifest byte-identical.

use vstd::prelude::*;
use crate::schema::{ColumnModel, ResolvedModelSchema, SchemaModel};

verus! {

/// One indented list entry per item.
pub open spec fn render_list(items: Seq<Seq<char>>) -> Seq<char>
    decreases items.len()
{
    if items.len() == 0 {
        seq![]
    } else {
        "          - "@ + items[0] + "\n"@ + render_list(items.skip(1))
    }
}

/// One column entry: its name, its tests when it has any, and its tags
/// when it has any.
pub open spec fn render_col(c: ColumnModel) -> Seq<char> {
    "      - name: "@ + c.name + "\n"@ + (if c.tests.len() > 0 {
        "        tests:\n"@ + render_list(c.tests)
    } else {
        Seq::<char>::empty()
    }) + (if c.tags.len() > 0 {
        "        tags:\n"@ + render_list(c.tags)
    } else {
        Seq::<char>::empty()
    })
}

/// The column entries, in resolved order.
pub open spec fn render_cols(cols: Seq<ColumnModel>) -> Seq<char>
    decreases cols.len()
{
    if cols.len() == 0 {
        seq![]
    } else {
        render_col(cols[0]) + render_cols(cols.skip(1))
    }
}

/// The whole document for one model.
pub open spec fn spec_render(s: SchemaModel) -> Seq<char> {
    "version: 2\nmodels:\n  - name: "@ + s.model_name + "\n    columns:\n"@ + render_cols(
        s.columns,
    )
}

/// Appends one indented list entry per item.
fn append_list(out: &mut String, items: &Vec<String>)
    ensures
        final(out)@ == old(out)@ + render_list(items.deep_view()),
{
    let ghost dv = items.deep_view();
    let ghost start = out@;
    let n = items.len();
    let mut i: usize = 0;
    proof {
        assert(dv.skip(0) =~= dv);
        assert(dv.len() == items@.len());
        assert(start + render_list(dv) =~= out@ + render_list(dv.skip(0)));
    }
    while i < n
        invariant
            i <= n,
            n == items@.len(),
            dv == items.deep_view(),
            dv.len() == n,
            start + render_list(dv) == out@ + render_list(dv.skip(i as int)),
        decreases n - i,
    {
        out.append("          - ");
        out.append(items[i].as_str());
        out.append("\n");
        proof {
            assert(dv.skip(i as int)[0] == dv[i as int]);
            assert(dv[i as int] == items@[i as int]@);
            assert(dv.skip(i as int).skip(1) =~= dv.skip(i + 1));
            assert(render_list(dv.skip(i as int)) == "          - "@ + dv[i as int] + "\n"@
                + render_list(dv.skip(i + 1)));
            assert(start + render_list(dv) =~= out@ + render_list(dv.skip(i + 1)));
        }
        i += 1;
    }
    proof {
        assert(render_list(dv.skip(n as int)) =~= Seq::<char>::empty());
        assert(start + render_list(dv) =~= out@);
    }
}

/// Renders a resolved model schema to its output document.
pub fn render_schema(s: &ResolvedModelSchema) -> (r: String)
    ensures
        r@ == spec_render(s@),
{
    let mut out: String = "version: 2\nmodels:\n  - name: ".to_owned();
    out.append(s.model_name.as_str());
    out.append("\n    columns:\n");
    let ghost head = out@;
    let ghost cols = s@.columns;
    let n = s.columns.len();
    let mut i: usize = 0;
    proof {
        assert(cols.skip(0) =~= cols);
        assert(head + render_cols(cols) =~= out@ + render_cols(cols.skip(0)));
    }
    while i < n
        invariant
            i <= n,
            n == s.columns@.len(),
            cols == s@.columns,
            cols.len() == n,
            head + render_cols(cols) == out@ + render_cols(cols.skip(i as int)),
        decreases n - i,
    {
        let ghost pre = out@;
        let c = &s.columns[i];
        out.append("      - name: ");
        out.append(c.name.as_str());
        out.append("\n");
        if c.tests.len() > 0 {
            out.append("        tests:\n");
            append_list(&mut out, &c.tests);
        }
        if c.tags.len() > 0 {
            out.append("        tags:\n");
            append_list(&mut out, &c.tags);
        }
        proof {
            assert(cols[i as int] == c@);
            assert(c@.tests == c.tests.deep_view());
            assert(c@.tags == c.tags.deep_view());
            assert(out@ =~= pre + render_col(cols[i as int]));
            assert(cols.skip(i as int)[0] == cols[i as int]);
            assert(cols.skip(i as int).skip(1) =~= cols.skip(i + 1));
            assert(render_cols(cols.skip(i as int)) == render_col(cols[i as int]) + render_cols(
                cols.skip(i + 1),
            ));
            assert(head + render_cols(cols) =~= out@ + render_cols(cols.skip(i + 1)));
        }
        i += 1;
    }
    proof {
        assert(render_cols(cols.skip(n as int)) =~= Seq::<char>::empty());
        assert(out@ =~= head + render_cols(cols));
        assert(out@ =~= spec_render(s@));
    }
    out
}

} // verus!
