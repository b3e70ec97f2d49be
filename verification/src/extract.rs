//! The column-reference extractor: parses compiled query text into an
//! ordered, de-duplicated sequence of projected column names.
//!
//! The grammar is dialect-agnostic.  A query is either a `SELECT` whose
//! projection list runs to the first top-level `FROM` (or to the end), or a
//! `WITH` chain of common-table-expressions whose bodies are extracted with
//! the same rule and concatenated, followed by a final query.  A projection
//! item names a column when it is a bare identifier, a dotted identifier
//! (the last segment is taken), or an `AS`-aliased expression (the alias is
//! taken); any other expression is skipped.  Unparseable input yields no
//! names and a parse diagnostic, never an abort.

use vstd::prelude::*;
use crate::text::{eq_ignore_ascii_case, lemma_lower_seq_id, to_lower_seq};
use crate::token::{Token, TokenModel, spec_tokens, tokenize, toks_of};

verus! {

/// The name images of a string sequence.
pub open spec fn names_of(v: Seq<String>) -> Seq<Seq<char>> {
    v.map_values(|s: String| s@)
}

proof fn lemma_names_push(v: Seq<String>, s: String)
    ensures
        names_of(v.push(s)) == names_of(v).push(s@),
{
    assert(names_of(v.push(s)) =~= names_of(v).push(s@));
}

proof fn lemma_names_concat(a: Seq<String>, b: Seq<String>)
    ensures
        names_of(a + b) == names_of(a) + names_of(b),
{
    assert(names_of(a + b) =~= names_of(a) + names_of(b));
}

/// The lower-cased text of the keywords the grammar knows.
proof fn kw_facts()
    ensures
        to_lower_seq("with"@) == "with"@,
        to_lower_seq("select"@) == "select"@,
        to_lower_seq("as"@) == "as"@,
        to_lower_seq("from"@) == "from"@,
        to_lower_seq("distinct"@) == "distinct"@,
        to_lower_seq("all"@) == "all"@,
{
    reveal_strlit("with");
    reveal_strlit("select");
    reveal_strlit("as");
    reveal_strlit("from");
    reveal_strlit("distinct");
    reveal_strlit("all");
    lemma_lower_seq_id("with"@);
    lemma_lower_seq_id("select"@);
    lemma_lower_seq_id("as"@);
    lemma_lower_seq_id("from"@);
    lemma_lower_seq_id("distinct"@);
    lemma_lower_seq_id("all"@);
}

/// True when the token is an identifier whose text is `kw` up to ASCII case.
pub open spec fn is_kw(t: TokenModel, kw: Seq<char>) -> bool {
    match t {
        TokenModel::Ident(x) => to_lower_seq(x) == kw,
        _ => false,
    }
}

/// The text of an identifier token.
pub open spec fn ident_text(t: TokenModel) -> Option<Seq<char>> {
    match t {
        TokenModel::Ident(x) => Some(x),
        _ => None,
    }
}

/// Tests a token against a keyword, ignoring ASCII case.
fn tok_is_kw(t: &Token, kw: &str) -> (r: bool)
    requires
        to_lower_seq(kw@) == kw@,
    ensures
        r == is_kw(t@, kw@),
{
    match t {
        Token::Ident(x) => eq_ignore_ascii_case(x.as_str(), kw),
        _ => false,
    }
}

/// The position of the right parenthesis that closes the group open at
/// nesting depth `depth` when scanning starts at `i`; `None` when the
/// tokens run out first.
pub open spec fn close_idx(ts: Seq<TokenModel>, i: int, depth: int) -> Option<int>
    decreases ts.len() - i when 0 <= i <= ts.len()
{
    if i >= ts.len() {
        None
    } else if ts[i] is RParen {
        if depth <= 0 {
            Some(i)
        } else {
            close_idx(ts, i + 1, depth - 1)
        }
    } else if ts[i] is LParen {
        close_idx(ts, i + 1, depth + 1)
    } else {
        close_idx(ts, i + 1, depth)
    }
}

/// The position where the projection item that starts at `i` ends: the
/// first top-level comma or `FROM` keyword, else the length.
pub open spec fn item_end(ts: Seq<TokenModel>, i: int, depth: int) -> int
    decreases ts.len() - i when 0 <= i <= ts.len()
{
    if i >= ts.len() {
        ts.len() as int
    } else if depth <= 0 && (ts[i] is Comma || is_kw(ts[i], "from"@)) {
        i
    } else if ts[i] is LParen {
        item_end(ts, i + 1, depth + 1)
    } else if ts[i] is RParen {
        item_end(ts, i + 1, if depth <= 0 { 0int } else { depth - 1 })
    } else {
        item_end(ts, i + 1, depth)
    }
}

/// The column name one projection item contributes, if any: a bare
/// identifier, the last segment of a dotted identifier, or an `AS` alias.
pub open spec fn spec_item_name(item: Seq<TokenModel>) -> Option<Seq<char>> {
    if item.len() == 1 {
        ident_text(item[0])
    } else if item.len() == 3 && item[0] is Ident && item[1] is Dot {
        ident_text(item[2])
    } else if item.len() >= 2 && is_kw(item[item.len() - 2], "as"@) {
        ident_text(item[item.len() - 1])
    } else {
        None
    }
}

/// The names the projection list at the head of `ts` contributes, in order.
pub open spec fn spec_items(ts: Seq<TokenModel>) -> Seq<Seq<char>>
    decreases ts.len()
{
    if ts.len() == 0 {
        seq![]
    } else {
        let e0 = item_end(ts, 0, 0);
        let e = if e0 < 0 {
            0int
        } else if e0 > ts.len() {
            ts.len() as int
        } else {
            e0
        };
        let names = match spec_item_name(ts.subrange(0, e)) {
            Some(n) => seq![n],
            None => Seq::<Seq<char>>::empty(),
        };
        if e >= ts.len() {
            names
        } else if ts[e] is Comma {
            names + spec_items(ts.skip(e + 1))
        } else {
            names
        }
    }
}

/// The projection region of a `SELECT`: its tokens after the optional
/// `DISTINCT` or `ALL` qualifier.
pub open spec fn after_qualifier(ts: Seq<TokenModel>) -> Seq<TokenModel> {
    if ts.len() > 0 && (is_kw(ts[0], "distinct"@) || is_kw(ts[0], "all"@)) {
        ts.skip(1)
    } else {
        ts
    }
}

/// The names a whole query contributes: `None` on parse failure.
pub open spec fn spec_query(ts: Seq<TokenModel>) -> Option<Seq<Seq<char>>>
    decreases ts.len(), 1int
{
    if ts.len() == 0 {
        None
    } else if is_kw(ts[0], "with"@) {
        spec_ctes(ts.skip(1))
    } else if is_kw(ts[0], "select"@) {
        Some(spec_items(after_qualifier(ts.skip(1))))
    } else {
        None
    }
}

/// The names a chain of common-table-expressions and its final query
/// contribute: each CTE body is extracted with the same rule, in order.
pub open spec fn spec_ctes(ts: Seq<TokenModel>) -> Option<Seq<Seq<char>>>
    decreases ts.len(), 2int
{
    if ts.len() >= 3 && ts[0] is Ident && is_kw(ts[1], "as"@) && ts[2] is LParen {
        match close_idx(ts, 3, 0) {
            Some(j) => if 3 <= j < ts.len() {
                match spec_query(ts.subrange(3, j)) {
                    Some(inner) => if j + 1 >= ts.len() {
                        None
                    } else if ts[j + 1] is Comma {
                        match spec_ctes(ts.skip(j + 2)) {
                            Some(rest) => Some(inner + rest),
                            None => None,
                        }
                    } else {
                        match spec_query(ts.skip(j + 1)) {
                            Some(fin) => Some(inner + fin),
                            None => None,
                        }
                    },
                    None => None,
                }
            } else {
                None
            },
            None => None,
        }
    } else {
        None
    }
}

/// De-duplication that keeps the first occurrence of each name.
pub open spec fn spec_dedup(s: Seq<Seq<char>>) -> Seq<Seq<char>>
    decreases s.len()
{
    if s.len() == 0 {
        seq![]
    } else {
        let prev = spec_dedup(s.drop_last());
        if s.drop_last().contains(s.last()) {
            prev
        } else {
            prev.push(s.last())
        }
    }
}

/// No two positions hold the same name.
pub open spec fn distinct_seq(s: Seq<Seq<char>>) -> bool {
    forall|i: int, j: int| 0 <= i < j < s.len() ==> s[i] != s[j]
}

/// De-duplication yields distinct names and keeps exactly the names
/// that were present.
pub proof fn lemma_dedup(s: Seq<Seq<char>>)
    ensures
        distinct_seq(spec_dedup(s)),
        forall|x: Seq<char>| spec_dedup(s).contains(x) <==> s.contains(x),
    decreases s.len(),
{
    if s.len() == 0 {
        assert forall|x: Seq<char>| spec_dedup(s).contains(x) <==> s.contains(x) by {
            assert(!s.contains(x));
            assert(!spec_dedup(s).contains(x));
        }
    } else {
        let p = s.drop_last();
        let l = s.last();
        lemma_dedup(p);
        let dp = spec_dedup(p);
        assert forall|x: Seq<char>| s.contains(x) <==> p.contains(x) || x == l by {
            if s.contains(x) {
                let w = choose|w: int| 0 <= w < s.len() && s[w] == x;
                if w < s.len() - 1 {
                    assert(p[w] == x);
                }
            }
            if p.contains(x) {
                let w = choose|w: int| 0 <= w < p.len() && p[w] == x;
                assert(s[w] == x);
            }
            if x == l {
                assert(s[s.len() - 1] == x);
            }
        }
        if p.contains(l) {
            assert(spec_dedup(s) == dp);
        } else {
            assert(!dp.contains(l));
            assert(spec_dedup(s) == dp.push(l));
            assert forall|i: int, j: int| 0 <= i < j < dp.push(l).len() implies dp.push(l)[i]
                != dp.push(l)[j] by {
                if j < dp.len() {
                } else {
                    assert(dp.push(l)[j] == l);
                    if dp.push(l)[i] == l {
                        assert(dp[i] == l);
                        assert(dp.contains(l));
                    }
                }
            }
            assert forall|x: Seq<char>| dp.push(l).contains(x) <==> s.contains(x) by {
                if dp.push(l).contains(x) {
                    let w = choose|w: int| 0 <= w < dp.push(l).len() && dp.push(l)[w] == x;
                    if w < dp.len() {
                        assert(dp.contains(x));
                    }
                }
                if dp.contains(x) {
                    let w = choose|w: int| 0 <= w < dp.len() && dp[w] == x;
                    assert(dp.push(l)[w] == x);
                }
                if x == l {
                    assert(dp.push(l)[dp.len() as int] == x);
                }
            }
        }
    }
}

/// Copies the tokens of positions `lo..hi` into a fresh vector.
fn subvec(ts: &Vec<Token>, lo: usize, hi: usize) -> (r: Vec<Token>)
    requires
        lo <= hi <= ts@.len(),
    ensures
        toks_of(r@) == toks_of(ts@).subrange(lo as int, hi as int),
        r@.len() == hi - lo,
{
    let mut r: Vec<Token> = Vec::new();
    let mut j = lo;
    while j < hi
        invariant
            lo <= j <= hi <= ts@.len(),
            r@.len() == j - lo,
            toks_of(r@) == toks_of(ts@).subrange(lo as int, j as int),
        decreases hi - j,
    {
        let t = ts[j].duplicate();
        proof {
            assert(toks_of(r@.push(t)) =~= toks_of(r@).push(t@));
            assert(toks_of(r@).push(t@) =~= toks_of(ts@).subrange(lo as int, j + 1));
        }
        r.push(t);
        j += 1;
    }
    r
}

/// Finds the right parenthesis that closes the group open where scanning
/// starts at `start`.
fn find_close(ts: &Vec<Token>, start: usize) -> (r: Option<usize>)
    requires
        start <= ts@.len(),
    ensures
        match r {
            Some(j) => close_idx(toks_of(ts@), start as int, 0) == Some(j as int) && start <= j
                < ts@.len(),
            None => close_idx(toks_of(ts@), start as int, 0) is None,
        },
{
    let n = ts.len();
    let mut j = start;
    let mut depth: usize = 0;
    while j < n
        invariant
            start <= j <= n,
            n == ts@.len(),
            depth <= j,
            close_idx(toks_of(ts@), start as int, 0) == close_idx(
                toks_of(ts@),
                j as int,
                depth as int,
            ),
        decreases n - j,
    {
        match &ts[j] {
            Token::RParen => {
                if depth == 0 {
                    return Some(j);
                } else {
                    depth -= 1;
                }
            },
            Token::LParen => {
                depth += 1;
            },
            _ => {},
        }
        j += 1;
    }
    None
}

/// Finds the end of the projection item that starts at `start`.
fn find_item_end(ts: &Vec<Token>, start: usize) -> (e: usize)
    requires
        start <= ts@.len(),
    ensures
        e as int == item_end(toks_of(ts@), start as int, 0),
        start <= e <= ts@.len(),
{
    proof {
        kw_facts();
    }
    let n = ts.len();
    let mut j = start;
    let mut depth: usize = 0;
    while j < n
        invariant
            start <= j <= n,
            n == ts@.len(),
            depth <= j,
            item_end(toks_of(ts@), start as int, 0) == item_end(
                toks_of(ts@),
                j as int,
                depth as int,
            ),
        decreases n - j,
    {
        proof {
            kw_facts();
        }
        let at_top = depth == 0;
        match &ts[j] {
            Token::Comma => {
                if at_top {
                    return j;
                }
            },
            Token::LParen => {
                depth += 1;
            },
            Token::RParen => {
                if depth > 0 {
                    depth -= 1;
                }
            },
            _ => {},
        }
        if at_top && tok_is_kw(&ts[j], "from") {
            return j;
        }
        j += 1;
    }
    n
}

/// The column name one projection item contributes, if any.
fn item_name(item: &Vec<Token>) -> (r: Option<String>)
    ensures
        match spec_item_name(toks_of(item@)) {
            Some(n) => r matches Some(s) && s@ == n,
            None => r is None,
        },
{
    proof {
        kw_facts();
    }
    let n = item.len();
    if n == 1 {
        match &item[0] {
            Token::Ident(x) => Some(x.clone()),
            _ => None,
        }
    } else if n == 3 && matches!(&item[0], Token::Ident(_)) && matches!(&item[1], Token::Dot) {
        match &item[2] {
            Token::Ident(x) => Some(x.clone()),
            _ => None,
        }
    } else if n >= 2 && tok_is_kw(&item[n - 2], "as") {
        match &item[n - 1] {
            Token::Ident(x) => Some(x.clone()),
            _ => None,
        }
    } else {
        None
    }
}

/// Collects the names of a projection list, in order.
fn parse_items(ts: &Vec<Token>) -> (r: Vec<String>)
    ensures
        names_of(r@) == spec_items(toks_of(ts@)),
    decreases ts@.len(),
{
    if ts.len() == 0 {
        let r: Vec<String> = Vec::new();
        proof {
            assert(names_of(r@) =~= spec_items(toks_of(ts@)));
        }
        return r;
    }
    let n = ts.len();
    let e = find_item_end(ts, 0);
    let item = subvec(ts, 0, e);
    let name = item_name(&item);
    let mut out: Vec<String> = Vec::new();
    proof {
        assert(toks_of(ts@).subrange(0, e as int) == toks_of(item@));
    }
    match name {
        Some(s) => {
            proof {
                lemma_names_push(out@, s);
            }
            out.push(s);
        },
        None => {},
    }
    if e >= n {
        proof {
            assert(names_of(out@) =~= spec_items(toks_of(ts@)));
        }
        out
    } else {
        let comma = matches!(&ts[e], Token::Comma);
        if comma {
            let sub = subvec(ts, e + 1, n);
            let mut rest = parse_items(&sub);
            proof {
                assert(toks_of(ts@).skip(e + 1) =~= toks_of(ts@).subrange(e + 1, n as int));
                lemma_names_concat(out@, rest@);
            }
            out.append(&mut rest);
            proof {
                assert(names_of(out@) =~= spec_items(toks_of(ts@)));
            }
            out
        } else {
            proof {
                assert(names_of(out@) =~= spec_items(toks_of(ts@)));
            }
            out
        }
    }
}

/// Parses one query and collects its projected names; `None` on parse
/// failure.
fn parse_query(ts: &Vec<Token>) -> (r: Option<Vec<String>>)
    ensures
        match spec_query(toks_of(ts@)) {
            Some(names) => r matches Some(v) && names_of(v@) == names,
            None => r is None,
        },
    decreases ts@.len(), 1int,
{
    proof {
        kw_facts();
    }
    if ts.len() == 0 {
        return None;
    }
    if tok_is_kw(&ts[0], "with") {
        let sub = subvec(ts, 1, ts.len());
        proof {
            assert(toks_of(ts@).skip(1) =~= toks_of(sub@));
        }
        parse_ctes(&sub)
    } else if tok_is_kw(&ts[0], "select") {
        let skip_qualifier = ts.len() > 1 && (tok_is_kw(&ts[1], "distinct") || tok_is_kw(
            &ts[1],
            "all",
        ));
        let lo = if skip_qualifier {
            2
        } else {
            1
        };
        let sub = subvec(ts, lo, ts.len());
        proof {
            assert(toks_of(ts@).skip(lo as int) =~= toks_of(sub@));
            if skip_qualifier {
                assert(toks_of(ts@).skip(1).skip(1) =~= toks_of(ts@).skip(2));
                assert(toks_of(ts@).skip(1)[0] == ts@[1]@);
            }
            assert(after_qualifier(toks_of(ts@).skip(1)) == toks_of(sub@));
        }
        Some(parse_items(&sub))
    } else {
        None
    }
}

/// Parses a chain of common-table-expressions and the final query after it.
fn parse_ctes(ts: &Vec<Token>) -> (r: Option<Vec<String>>)
    ensures
        match spec_ctes(toks_of(ts@)) {
            Some(names) => r matches Some(v) && names_of(v@) == names,
            None => r is None,
        },
    decreases ts@.len(), 2int,
{
    proof {
        kw_facts();
    }
    let n = ts.len();
    if !(n >= 3 && matches!(&ts[0], Token::Ident(_)) && matches!(&ts[2], Token::LParen)) {
        return None;
    }
    if !tok_is_kw(&ts[1], "as") {
        return None;
    }
    match find_close(ts, 3) {
        None => None,
        Some(j) => {
            let body = subvec(ts, 3, j);
            proof {
                assert(toks_of(ts@).subrange(3, j as int) == toks_of(body@));
            }
            match parse_query(&body) {
                None => None,
                Some(mut inner) => {
                    if j + 1 >= n {
                        None
                    } else if matches!(&ts[j + 1], Token::Comma) {
                        let sub = subvec(ts, j + 2, n);
                        proof {
                            assert(toks_of(ts@).skip(j + 2) =~= toks_of(sub@));
                        }
                        match parse_ctes(&sub) {
                            None => None,
                            Some(mut rest) => {
                                proof {
                                    lemma_names_concat(inner@, rest@);
                                }
                                inner.append(&mut rest);
                                Some(inner)
                            },
                        }
                    } else {
                        let sub = subvec(ts, j + 1, n);
                        proof {
                            assert(toks_of(ts@).skip(j + 1) =~= toks_of(sub@));
                        }
                        match parse_query(&sub) {
                            None => None,
                            Some(mut fin) => {
                                proof {
                                    lemma_names_concat(inner@, fin@);
                                }
                                inner.append(&mut fin);
                                Some(inner)
                            },
                        }
                    }
                },
            }
        },
    }
}

/// True when `x` occurs among the first `k` strings of `v`.
fn contains_prefix(v: &Vec<String>, k: usize, x: &String) -> (r: bool)
    requires
        k <= v@.len(),
    ensures
        r == names_of(v@).take(k as int).contains(x@),
{
    let mut m: usize = 0;
    while m < k
        invariant
            m <= k <= v@.len(),
            forall|w: int| 0 <= w < m ==> names_of(v@)[w] != x@,
        decreases k - m,
    {
        if v[m].eq(x) {
            proof {
                assert(names_of(v@).take(k as int)[m as int] == x@);
            }
            return true;
        }
        m += 1;
    }
    proof {
        assert forall|w: int| 0 <= w < k implies names_of(v@).take(k as int)[w] != x@ by {
            assert(names_of(v@)[w] != x@);
        }
    }
    false
}

/// De-duplicates names, keeping the first occurrence of each.
fn dedup_names(v: &Vec<String>) -> (r: Vec<String>)
    ensures
        names_of(r@) == spec_dedup(names_of(v@)),
{
    let n = v.len();
    let mut r: Vec<String> = Vec::new();
    let mut i: usize = 0;
    proof {
        assert(names_of(r@) =~= spec_dedup(names_of(v@).take(0)));
    }
    while i < n
        invariant
            i <= n,
            n == v@.len(),
            names_of(r@) == spec_dedup(names_of(v@).take(i as int)),
        decreases n - i,
    {
        let ghost pre = names_of(v@).take(i as int);
        let ghost cur = names_of(v@).take(i + 1);
        proof {
            assert(cur.drop_last() =~= pre);
            assert(cur.last() == v@[i as int]@);
        }
        let seen = contains_prefix(v, i, &v[i]);
        if !seen {
            let s = v[i].clone();
            proof {
                lemma_names_push(r@, s);
            }
            r.push(s);
        }
        i += 1;
    }
    proof {
        assert(names_of(v@).take(n as int) =~= names_of(v@));
    }
    r
}

/// What the extractor reports for one model's compiled query text.
pub struct ExtractOutcome {
    /// The projected column names, first-seen order, no duplicates;
    /// empty when the text did not parse.
    pub columns: Vec<String>,
    /// The parse diagnostic: true when the text did not parse.
    pub parse_failed: bool,
}

/// The names the extractor yields for query text, `None` on parse failure.
pub open spec fn spec_extract(code: Seq<char>) -> Option<Seq<Seq<char>>> {
    match spec_query(spec_tokens(code, 0)) {
        Some(names) => Some(spec_dedup(names)),
        None => None,
    }
}

/// Law: whenever query text parses, the extractor yields names without
/// duplicates, and exactly the names the query's projection lists
/// contribute; whenever it does not parse, no names are yielded.
pub proof fn lemma_extract_names(code: Seq<char>)
    ensures
        match spec_extract(code) {
            Some(ns) => distinct_seq(ns) && (forall|x: Seq<char>|
                ns.contains(x) <==> (spec_query(spec_tokens(code, 0)) matches Some(raw)
                    && raw.contains(x))),
            None => spec_query(spec_tokens(code, 0)) is None,
        },
{
    match spec_query(spec_tokens(code, 0)) {
        Some(names) => {
            lemma_dedup(names);
        },
        None => {},
    }
}

/// Extracts the ordered, de-duplicated projected column names from
/// compiled query text.  Never fails: unparseable text yields no names
/// and the parse diagnostic.
pub fn extract(compiled_code: &str) -> (out: ExtractOutcome)
    ensures
        out.parse_failed == (spec_extract(compiled_code@) is None),
        match spec_extract(compiled_code@) {
            Some(names) => names_of(out.columns@) == names,
            None => out.columns@.len() == 0,
        },
{
    let toks = tokenize(compiled_code);
    match parse_query(&toks) {
        Some(names) => {
            let columns = dedup_names(&names);
            ExtractOutcome { columns, parse_failed: false }
        },
        None => ExtractOutcome { columns: Vec::new(), parse_failed: true },
    }
}

} // verus!
