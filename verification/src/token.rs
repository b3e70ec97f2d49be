//! Lexical analysis of compiled query text.
//!
//! The tokenizer is dialect-agnostic: it recognizes identifiers (bare or
//! double-quoted), the punctuation the projection-list grammar cares about,
//! line comments, and single-quoted literals; every other character is an
//! opaque token.

use vstd::prelude::*;

verus! {

/// One lexical unit of query text.
#[derive(Debug)]
pub enum Token {
    /// A bare or double-quoted identifier, with its text.
    Ident(String),
    Comma,
    LParen,
    RParen,
    Dot,
    /// Any other character or a quoted literal; opaque to the grammar.
    Other,
}

/// The mathematical image of a token.
pub enum TokenModel {
    Ident(Seq<char>),
    Comma,
    LParen,
    RParen,
    Dot,
    Other,
}

impl View for Token {
    type V = TokenModel;

    open spec fn view(&self) -> TokenModel {
        match self {
            Token::Ident(s) => TokenModel::Ident(s@),
            Token::Comma => TokenModel::Comma,
            Token::LParen => TokenModel::LParen,
            Token::RParen => TokenModel::RParen,
            Token::Dot => TokenModel::Dot,
            Token::Other => TokenModel::Other,
        }
    }
}

impl Token {
    /// An equal copy of the token.
    pub fn duplicate(&self) -> (r: Token)
        ensures
            r@ == self@,
    {
        match self {
            Token::Ident(s) => Token::Ident(s.clone()),
            Token::Comma => Token::Comma,
            Token::LParen => Token::LParen,
            Token::RParen => Token::RParen,
            Token::Dot => Token::Dot,
            Token::Other => Token::Other,
        }
    }
}

/// The token images of a token sequence.
pub open spec fn toks_of(v: Seq<Token>) -> Seq<TokenModel> {
    v.map_values(|t: Token| t@)
}

pub open spec fn is_space_ch(c: char) -> bool {
    c == ' ' || c == '\t' || c == '\n' || c == '\r'
}

pub open spec fn is_ident_start_ch(c: char) -> bool {
    ('a' <= c && c <= 'z') || ('A' <= c && c <= 'Z') || c == '_'
}

pub open spec fn is_ident_ch(c: char) -> bool {
    is_ident_start_ch(c) || ('0' <= c && c <= '9') || c == '$'
}

/// The first position at or after `i` holding character `q`, else the length.
pub open spec fn ch_end(s: Seq<char>, i: int, q: char) -> int
    decreases s.len() - i when 0 <= i <= s.len()
{
    if i >= s.len() || s[i] == q {
        i
    } else {
        ch_end(s, i + 1, q)
    }
}

/// The first position at or after `i` holding a non-identifier character,
/// else the length.
pub open spec fn ident_end(s: Seq<char>, i: int) -> int
    decreases s.len() - i when 0 <= i <= s.len()
{
    if i >= s.len() || !is_ident_ch(s[i]) {
        i
    } else {
        ident_end(s, i + 1)
    }
}

proof fn lemma_ch_end(s: Seq<char>, i: int, q: char)
    requires
        0 <= i <= s.len(),
    ensures
        i <= ch_end(s, i, q) <= s.len(),
        ch_end(s, i, q) < s.len() ==> s[ch_end(s, i, q)] == q,
    decreases s.len() - i,
{
    if i < s.len() && s[i] != q {
        lemma_ch_end(s, i + 1, q);
    }
}

proof fn lemma_ident_end(s: Seq<char>, i: int)
    requires
        0 <= i <= s.len(),
    ensures
        i <= ident_end(s, i) <= s.len(),
    decreases s.len() - i,
{
    if i < s.len() && is_ident_ch(s[i]) {
        lemma_ident_end(s, i + 1);
    }
}

/// A strictly advancing position within bounds: `e` clamped into
/// `[i + 1, n]`.  The scan-end functions above always land past the
/// character that opened the token and within the text, so the clamp
/// never changes the value; it only keeps the recursion below visibly
/// terminating.
pub open spec fn adv(i: int, e: int, n: int) -> int {
    if e <= i {
        i + 1
    } else if e > n {
        n
    } else {
        e
    }
}

/// The position just past a single-quoted literal that opens at `i`.
pub open spec fn lit_next(s: Seq<char>, i: int) -> int {
    let e = ch_end(s, i + 1, '\'');
    if e < s.len() {
        e + 1
    } else {
        s.len() as int
    }
}

/// The position just past a double-quoted identifier that opens at `i`.
pub open spec fn quoted_next(s: Seq<char>, i: int) -> int {
    let e = ch_end(s, i + 1, '"');
    if e < s.len() {
        e + 1
    } else {
        s.len() as int
    }
}

/// The token images of the text of `s` from position `i` on.
pub open spec fn spec_tokens(s: Seq<char>, i: int) -> Seq<TokenModel>
    decreases s.len() - i when 0 <= i <= s.len()
{
    if i >= s.len() {
        seq![]
    } else {
        let c = s[i];
        if is_space_ch(c) {
            spec_tokens(s, i + 1)
        } else if c == '-' && i + 1 < s.len() && s[i + 1] == '-' {
            spec_tokens(s, adv(i, ch_end(s, i + 2, '\n'), s.len() as int))
        } else if is_ident_start_ch(c) {
            let e = adv(i, ident_end(s, i + 1), s.len() as int);
            seq![TokenModel::Ident(s.subrange(i, e))] + spec_tokens(s, e)
        } else if c == '\'' {
            seq![TokenModel::Other] + spec_tokens(s, adv(i, lit_next(s, i), s.len() as int))
        } else if c == '"' {
            let e = ch_end(s, i + 1, '"');
            seq![TokenModel::Ident(s.subrange(i + 1, e))] + spec_tokens(s, adv(i, quoted_next(s, i), s.len() as int))
        } else if c == ',' {
            seq![TokenModel::Comma] + spec_tokens(s, i + 1)
        } else if c == '(' {
            seq![TokenModel::LParen] + spec_tokens(s, i + 1)
        } else if c == ')' {
            seq![TokenModel::RParen] + spec_tokens(s, i + 1)
        } else if c == '.' {
            seq![TokenModel::Dot] + spec_tokens(s, i + 1)
        } else {
            seq![TokenModel::Other] + spec_tokens(s, i + 1)
        }
    }
}

fn ec_is_space(c: char) -> (r: bool)
    ensures
        r == is_space_ch(c),
{
    c == ' ' || c == '\t' || c == '\n' || c == '\r'
}

fn ec_is_ident_start(c: char) -> (r: bool)
    ensures
        r == is_ident_start_ch(c),
{
    let u = c as u32;
    (97 <= u && u <= 122) || (65 <= u && u <= 90) || c == '_'
}

fn ec_is_ident(c: char) -> (r: bool)
    ensures
        r == is_ident_ch(c),
{
    let u = c as u32;
    ec_is_ident_start(c) || (48 <= u && u <= 57) || c == '$'
}

/// Scans for the first occurrence of `q` at or after `start`.
fn scan_ch(s: &str, start: usize, q: char) -> (e: usize)
    requires
        start <= s@.len(),
    ensures
        e as int == ch_end(s@, start as int, q),
        start <= e <= s@.len(),
{
    let n = s.unicode_len();
    let mut j = start;
    while j < n
        invariant
            start <= j <= n,
            n == s@.len(),
            ch_end(s@, start as int, q) == ch_end(s@, j as int, q),
        decreases n - j,
    {
        if s.get_char(j) == q {
            return j;
        }
        j += 1;
    }
    j
}

/// Scans for the end of a run of identifier characters.
fn scan_ident(s: &str, start: usize) -> (e: usize)
    requires
        start <= s@.len(),
    ensures
        e as int == ident_end(s@, start as int),
        start <= e <= s@.len(),
{
    let n = s.unicode_len();
    let mut j = start;
    while j < n
        invariant
            start <= j <= n,
            n == s@.len(),
            ident_end(s@, start as int) == ident_end(s@, j as int),
        decreases n - j,
    {
        if !ec_is_ident(s.get_char(j)) {
            return j;
        }
        j += 1;
    }
    j
}

proof fn lemma_toks_of_push(v: Seq<Token>, t: Token)
    ensures
        toks_of(v.push(t)) == toks_of(v).push(t@),
{
    assert(toks_of(v.push(t)) =~= toks_of(v).push(t@));
}

/// Tokenizes query text.
pub fn tokenize(s: &str) -> (toks: Vec<Token>)
    ensures
        toks_of(toks@) == spec_tokens(s@, 0),
{
    let n = s.unicode_len();
    let mut toks: Vec<Token> = Vec::new();
    let mut i: usize = 0;
    while i < n
        invariant
            i <= n,
            n == s@.len(),
            spec_tokens(s@, 0) == toks_of(toks@) + spec_tokens(s@, i as int),
        decreases n - i,
    {
        let ghost prev_i = i as int;
        let ghost prev_toks = toks@;
        let c = s.get_char(i);
        let mut pushed: Option<Token> = None;
        if ec_is_space(c) {
            i += 1;
        } else if c == '-' && i + 1 < n && s.get_char(i + 1) == '-' {
            proof {
                lemma_ch_end(s@, prev_i + 2, '\n');
            }
            let e = scan_ch(s, i + 2, '\n');
            i = e;
        } else if ec_is_ident_start(c) {
            proof {
                lemma_ident_end(s@, prev_i + 1);
            }
            let e = scan_ident(s, i + 1);
            let text = s.substring_char(i, e);
            pushed = Some(Token::Ident(text.to_owned()));
            i = e;
        } else if c == '\'' {
            proof {
                lemma_ch_end(s@, prev_i + 1, '\'');
            }
            let e = scan_ch(s, i + 1, '\'');
            pushed = Some(Token::Other);
            i = if e < n { e + 1 } else { n };
        } else if c == '"' {
            proof {
                lemma_ch_end(s@, prev_i + 1, '"');
            }
            let e = scan_ch(s, i + 1, '"');
            let text = s.substring_char(i + 1, e);
            pushed = Some(Token::Ident(text.to_owned()));
            i = if e < n { e + 1 } else { n };
        } else if c == ',' {
            pushed = Some(Token::Comma);
            i += 1;
        } else if c == '(' {
            pushed = Some(Token::LParen);
            i += 1;
        } else if c == ')' {
            pushed = Some(Token::RParen);
            i += 1;
        } else if c == '.' {
            pushed = Some(Token::Dot);
            i += 1;
        } else {
            pushed = Some(Token::Other);
            i += 1;
        }
        match pushed {
            Some(t) => {
                proof {
                    lemma_toks_of_push(toks@, t);
                    assert(spec_tokens(s@, prev_i) == seq![t@] + spec_tokens(s@, i as int));
                    assert(toks_of(prev_toks) + spec_tokens(s@, prev_i) =~= toks_of(
                        prev_toks.push(t),
                    ) + spec_tokens(s@, i as int));
                }
                toks.push(t);
            },
            None => {
                proof {
                    assert(spec_tokens(s@, prev_i) == spec_tokens(s@, i as int));
                }
            },
        }
    }
    toks
}

} // verus!
