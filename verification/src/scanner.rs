//! The tokenizer: turns raw source text into a pull-based, single-lookahead
//! stream of source instructions tagged with the 0-based row each one started
//! on. Words are separated by space, CR and LF; `;` opens a line comment; a
//! double-quoted span is one literal word, taken verbatim. A leading keyword
//! selects the token shape and how many further words it consumes.

use vstd::prelude::*;

use crate::atom::Type;
use crate::atom::TypeV;
use crate::atom::type_of_word;
use crate::atom::types_v;
use crate::chars::chars_vec;
use crate::chars::string_from_chars;
use crate::chars::word_is;
use crate::errors::ScanError;
use crate::errors::ScanErrV;
use crate::errors::ScanErrorKind;
use crate::float;
use crate::numbers::parse_i32;
use crate::numbers::parse_i32_text;
use crate::numbers::parse_usize;
use crate::numbers::parse_usize_text;

verus! {

broadcast use vstd::seq::group_seq_axioms, vstd::seq_lib::group_seq_lib_default;

/// Mathematical image of a [`Token`].
pub enum TokenV {
    SRaw,
    SClass,
    SFn,
    Defun(Seq<char>, Seq<TypeV>, TypeV),
    Endef,
    Pushi(i32),
    Pushf(u32),
    Pop,
    Dup,
    Load(usize),
    Store(usize),
    Stores(usize, Seq<char>),
    Add,
    Sub,
    Mul,
    Div,
    Rem,
    Eq,
    Ne,
    Lt,
    Le,
    Gt,
    Ge,
    Call(Seq<char>),
    Label(usize),
    Goto(usize),
    Branch(usize),
}

/// One instruction of the source language. Floats are carried as their
/// IEEE-754 binary32 bit patterns.
#[derive(Debug)]
pub enum Token {
    SRaw,
    SClass,
    SFn,
    Defun(String, Vec<Type>, Type),
    Endef,
    Pushi(i32),
    Pushf(u32),
    Pop,
    Dup,
    Load(usize),
    Store(usize),
    Stores(usize, String),
    Add,
    Sub,
    Mul,
    Div,
    Rem,
    Eq,
    Ne,
    Lt,
    Le,
    Gt,
    Ge,
    Call(String),
    Label(usize),
    Goto(usize),
    Branch(usize),
}

impl View for Token {
    type V = TokenV;

    open spec fn view(&self) -> TokenV {
        match self {
            Token::SRaw => TokenV::SRaw,
            Token::SClass => TokenV::SClass,
            Token::SFn => TokenV::SFn,
            Token::Defun(n, ps, rt) => TokenV::Defun(n@, types_v(ps@), rt@),
            Token::Endef => TokenV::Endef,
            Token::Pushi(v) => TokenV::Pushi(*v),
            Token::Pushf(b) => TokenV::Pushf(*b),
            Token::Pop => TokenV::Pop,
            Token::Dup => TokenV::Dup,
            Token::Load(i) => TokenV::Load(*i),
            Token::Store(i) => TokenV::Store(*i),
            Token::Stores(i, s) => TokenV::Stores(*i, s@),
            Token::Add => TokenV::Add,
            Token::Sub => TokenV::Sub,
            Token::Mul => TokenV::Mul,
            Token::Div => TokenV::Div,
            Token::Rem => TokenV::Rem,
            Token::Eq => TokenV::Eq,
            Token::Ne => TokenV::Ne,
            Token::Lt => TokenV::Lt,
            Token::Le => TokenV::Le,
            Token::Gt => TokenV::Gt,
            Token::Ge => TokenV::Ge,
            Token::Call(n) => TokenV::Call(n@),
            Token::Label(l) => TokenV::Label(*l),
            Token::Goto(l) => TokenV::Goto(*l),
            Token::Branch(l) => TokenV::Branch(*l),
        }
    }
}

/// Clones a vector of declared types, element by element.
fn clone_types(v: &Vec<Type>) -> (r: Vec<Type>)
    ensures
        r@ == v@,
{
    let mut r: Vec<Type> = Vec::new();
    let mut i: usize = 0;
    while i < v.len()
        invariant
            i <= v@.len(),
            r@ == v@.subrange(0, i as int),
        decreases v@.len() - i,
    {
        r.push(v[i].clone());
        proof {
            assert(r@ =~= v@.subrange(0, i + 1));
        }
        i += 1;
    }
    proof {
        assert(v@.subrange(0, v@.len() as int) =~= v@);
    }
    r
}

impl Clone for Token {
    fn clone(&self) -> (r: Self)
        ensures
            r@ == self@,
    {
        match self {
            Token::SRaw => Token::SRaw,
            Token::SClass => Token::SClass,
            Token::SFn => Token::SFn,
            Token::Defun(n, ps, rt) => Token::Defun(n.clone(), clone_types(ps), rt.clone()),
            Token::Endef => Token::Endef,
            Token::Pushi(v) => Token::Pushi(*v),
            Token::Pushf(b) => Token::Pushf(*b),
            Token::Pop => Token::Pop,
            Token::Dup => Token::Dup,
            Token::Load(i) => Token::Load(*i),
            Token::Store(i) => Token::Store(*i),
            Token::Stores(i, s) => Token::Stores(*i, s.clone()),
            Token::Add => Token::Add,
            Token::Sub => Token::Sub,
            Token::Mul => Token::Mul,
            Token::Div => Token::Div,
            Token::Rem => Token::Rem,
            Token::Eq => Token::Eq,
            Token::Ne => Token::Ne,
            Token::Lt => Token::Lt,
            Token::Le => Token::Le,
            Token::Gt => Token::Gt,
            Token::Ge => Token::Ge,
            Token::Call(n) => Token::Call(n.clone()),
            Token::Label(l) => Token::Label(*l),
            Token::Goto(l) => Token::Goto(*l),
            Token::Branch(l) => Token::Branch(*l),
        }
    }
}

/// The views of a sequence of tokens, element by element.
pub open spec fn tokens_v(s: Seq<Token>) -> Seq<TokenV> {
    s.map(|i: int, t: Token| t@)
}

pub broadcast proof fn lemma_tokens_v_push(s: Seq<Token>, t: Token)
    ensures
        #[trigger] tokens_v(s.push(t)) == tokens_v(s).push(t@),
{
    assert(tokens_v(s.push(t)) =~= tokens_v(s).push(t@));
}

/// Mathematical image of an [`Inst`]: a token and the row it started on.
pub struct InstV {
    pub token: TokenV,
    pub row: int,
}

/// A token together with the 0-based source row it started on (used for
/// diagnostics only).
#[derive(Debug)]
pub struct Inst {
    pub token: Token,
    pub row: usize,
}

impl View for Inst {
    type V = InstV;

    open spec fn view(&self) -> InstV {
        InstV { token: self.token@, row: self.row as int }
    }
}

impl Clone for Inst {
    fn clone(&self) -> (r: Self)
        ensures
            r@ == self@,
    {
        Inst { token: self.token.clone(), row: self.row }
    }
}

/// Whether the character separates words.
pub open spec fn is_sep(c: char) -> bool {
    c == ' ' || c == '\n' || c == '\r'
}

/// The position and row of the next word start at or after `i`, skipping
/// separators and `;` line comments; `com` tells whether a comment is open.
pub open spec fn seek(text: Seq<char>, i: int, row: int, com: bool) -> (int, int)
    decreases text.len() - i,
{
    if i >= text.len() {
        (text.len() as int, row)
    } else if com {
        if text[i] == '\n' {
            seek(text, i + 1, row + 1, false)
        } else {
            seek(text, i + 1, row, true)
        }
    } else if text[i] == ';' {
        seek(text, i + 1, row, true)
    } else if is_sep(text[i]) {
        seek(text, i + 1, if text[i] == '\n' { row + 1 } else { row }, false)
    } else {
        (i, row)
    }
}

/// The first separator position at or after `i`, or the end of the text.
pub open spec fn word_end(text: Seq<char>, i: int) -> int
    decreases text.len() - i,
{
    if i >= text.len() {
        text.len() as int
    } else if is_sep(text[i]) {
        i
    } else {
        word_end(text, i + 1)
    }
}

/// The first closing-quote position at or after `i`, or the end of the text.
pub open spec fn quote_end(text: Seq<char>, i: int) -> int
    decreases text.len() - i,
{
    if i >= text.len() {
        text.len() as int
    } else if text[i] == '"' {
        i
    } else {
        quote_end(text, i + 1)
    }
}

/// What one word scan yields: the word itself (empty at end of input and
/// after an unclosed quote), the position after it, and the row it started on.
pub struct WordScan {
    pub word: Seq<char>,
    pub end: int,
    pub row: int,
}

/// Scans one word from position `i`: skips separators and comments, then
/// takes either a double-quoted span verbatim or a run of non-separators.
/// An unclosed quote discards the span and ends the stream.
pub open spec fn scan_word(text: Seq<char>, i: int, row: int) -> WordScan {
    let (j, r) = seek(text, i, row, false);
    if j >= text.len() {
        WordScan { word: Seq::empty(), end: text.len() as int, row: r }
    } else if text[j] == '"' {
        let q = quote_end(text, j + 1);
        if q >= text.len() {
            WordScan { word: Seq::empty(), end: text.len() as int, row: r }
        } else {
            WordScan { word: text.subrange(j + 1, q), end: q + 1, row: r }
        }
    } else {
        WordScan { word: text.subrange(j, word_end(text, j)), end: word_end(text, j), row: r }
    }
}

proof fn lemma_seek_bounds(text: Seq<char>, i: int, row: int, com: bool)
    requires
        0 <= i <= text.len(),
    ensures
        ({
            let (j, r) = seek(text, i, row, com);
            &&& i <= j <= text.len()
            &&& r >= row
            &&& r - row <= j - i
            &&& (j < text.len() ==> !is_sep(text[j]) && text[j] != ';')
        }),
    decreases text.len() - i,
{
    if i < text.len() {
        if com {
            if text[i] == '\n' {
                lemma_seek_bounds(text, i + 1, row + 1, false);
            } else {
                lemma_seek_bounds(text, i + 1, row, true);
            }
        } else if text[i] == ';' {
            lemma_seek_bounds(text, i + 1, row, true);
        } else if is_sep(text[i]) {
            lemma_seek_bounds(text, i + 1, if text[i] == '\n' { row + 1 } else { row }, false);
        }
    }
}

proof fn lemma_word_end_bounds(text: Seq<char>, i: int)
    requires
        0 <= i <= text.len(),
    ensures
        i <= word_end(text, i) <= text.len(),
    decreases text.len() - i,
{
    if i < text.len() && !is_sep(text[i]) {
        lemma_word_end_bounds(text, i + 1);
    }
}

proof fn lemma_quote_end_bounds(text: Seq<char>, i: int)
    requires
        0 <= i <= text.len(),
    ensures
        i <= quote_end(text, i) <= text.len(),
    decreases text.len() - i,
{
    if i < text.len() && text[i] != '"' {
        lemma_quote_end_bounds(text, i + 1);
    }
}

/// A word scan never moves backwards, never leaves the text, and a nonempty
/// word means real progress.
pub proof fn lemma_scan_word_bounds(text: Seq<char>, i: int, row: int)
    requires
        0 <= i <= text.len(),
    ensures
        ({
            let w = scan_word(text, i, row);
            i <= w.end <= text.len() && w.row >= row && (w.word.len() > 0 ==> w.end > i)
        }),
{
    lemma_seek_bounds(text, i, row, false);
    let (j, r) = seek(text, i, row, false);
    if j < text.len() {
        if text[j] == '"' {
            lemma_quote_end_bounds(text, j + 1);
        } else {
            lemma_word_end_bounds(text, j + 1);
            assert(word_end(text, j) == word_end(text, j + 1));
        }
    }
}

/// Scans `k` consecutive words as declared-type names.
pub open spec fn scan_types(text: Seq<char>, i: int, row: int, k: nat) -> (Seq<TypeV>, int, int)
    decreases k,
{
    if k == 0 {
        (Seq::empty(), i, row)
    } else {
        let w = scan_word(text, i, row);
        let rest = scan_types(text, w.end, w.row, (k - 1) as nat);
        (seq![type_of_word(w.word)] + rest.0, rest.1, rest.2)
    }
}

proof fn lemma_scan_types_bounds(text: Seq<char>, i: int, row: int, k: nat)
    requires
        0 <= i <= text.len(),
    ensures
        ({
            let (ts, e, r) = scan_types(text, i, row, k);
            i <= e <= text.len() && r >= row
        }),
    decreases k,
{
    if k > 0 {
        let w = scan_word(text, i, row);
        lemma_scan_word_bounds(text, i, row);
        lemma_scan_types_bounds(text, w.end, w.row, (k - 1) as nat);
    }
}

/// What scanning one instruction yields: the end of the stream, an
/// instruction with the position and row after it, or a lexing error.
pub enum ScanStep {
    End,
    Tok(InstV, int, int),
    Fail(ScanErrV),
}

/// Scans one instruction: one keyword word, then as many argument words as
/// that keyword consumes. A malformed numeric argument or an unrecognized
/// keyword is an error naming the row and the offending word.
pub open spec fn scan_inst(text: Seq<char>, i: int, row: int) -> ScanStep {
    let w = scan_word(text, i, row);
    let kw = w.word;
    if kw.len() == 0 {
        ScanStep::End
    } else if kw == ".raw"@ {
        ScanStep::Tok(InstV { token: TokenV::SRaw, row: w.row }, w.end, w.row)
    } else if kw == ".class"@ {
        ScanStep::Tok(InstV { token: TokenV::SClass, row: w.row }, w.end, w.row)
    } else if kw == ".function"@ {
        ScanStep::Tok(InstV { token: TokenV::SFn, row: w.row }, w.end, w.row)
    } else if kw == "defun"@ {
        let nm = scan_word(text, w.end, w.row);
        let pw = scan_word(text, nm.end, nm.row);
        match parse_usize_text(pw.word) {
            Some(k) => {
                let (ts, te, tr) = scan_types(text, pw.end, pw.row, k as nat);
                let rw = scan_word(text, te, tr);
                ScanStep::Tok(
                    InstV {
                        token: TokenV::Defun(nm.word, ts, type_of_word(rw.word)),
                        row: w.row,
                    },
                    rw.end,
                    rw.row,
                )
            },
            None => ScanStep::Fail(
                ScanErrV { row: pw.row, word: pw.word, kind: ScanErrorKind::BadNumber },
            ),
        }
    } else if kw == "endef"@ {
        ScanStep::Tok(InstV { token: TokenV::Endef, row: w.row }, w.end, w.row)
    } else if kw == "pushi"@ {
        let a = scan_word(text, w.end, w.row);
        match parse_i32_text(a.word) {
            Some(v) => ScanStep::Tok(InstV { token: TokenV::Pushi(v), row: w.row }, a.end, a.row),
            None => ScanStep::Fail(
                ScanErrV { row: a.row, word: a.word, kind: ScanErrorKind::BadNumber },
            ),
        }
    } else if kw == "pushf"@ {
        let a = scan_word(text, w.end, w.row);
        if a.word.len() > 0x7fff_ffff {
            ScanStep::Fail(ScanErrV { row: a.row, word: a.word, kind: ScanErrorKind::BadNumber })
        } else {
            match float::bits_of_text(a.word) {
                Some(b) => ScanStep::Tok(
                    InstV { token: TokenV::Pushf(b), row: w.row },
                    a.end,
                    a.row,
                ),
                None => ScanStep::Fail(
                    ScanErrV { row: a.row, word: a.word, kind: ScanErrorKind::BadNumber },
                ),
            }
        }
    } else if kw == "load"@ {
        let a = scan_word(text, w.end, w.row);
        match parse_usize_text(a.word) {
            Some(v) => ScanStep::Tok(InstV { token: TokenV::Load(v), row: w.row }, a.end, a.row),
            None => ScanStep::Fail(
                ScanErrV { row: a.row, word: a.word, kind: ScanErrorKind::BadNumber },
            ),
        }
    } else if kw == "store"@ {
        let a = scan_word(text, w.end, w.row);
        match parse_usize_text(a.word) {
            Some(v) => ScanStep::Tok(InstV { token: TokenV::Store(v), row: w.row }, a.end, a.row),
            None => ScanStep::Fail(
                ScanErrV { row: a.row, word: a.word, kind: ScanErrorKind::BadNumber },
            ),
        }
    } else if kw == "stores"@ {
        let a = scan_word(text, w.end, w.row);
        match parse_usize_text(a.word) {
            Some(v) => {
                let sz = scan_word(text, a.end, a.row);
                match parse_usize_text(sz.word) {
                    Some(_) => {
                        let dw = scan_word(text, sz.end, sz.row);
                        ScanStep::Tok(
                            InstV { token: TokenV::Stores(v, dw.word), row: w.row },
                            dw.end,
                            dw.row,
                        )
                    },
                    None => ScanStep::Fail(
                        ScanErrV { row: sz.row, word: sz.word, kind: ScanErrorKind::BadNumber },
                    ),
                }
            },
            None => ScanStep::Fail(
                ScanErrV { row: a.row, word: a.word, kind: ScanErrorKind::BadNumber },
            ),
        }
    } else if kw == "call"@ {
        let a = scan_word(text, w.end, w.row);
        ScanStep::Tok(InstV { token: TokenV::Call(a.word), row: w.row }, a.end, a.row)
    } else if kw == "dup"@ {
        ScanStep::Tok(InstV { token: TokenV::Dup, row: w.row }, w.end, w.row)
    } else if kw == "pop"@ {
        ScanStep::Tok(InstV { token: TokenV::Pop, row: w.row }, w.end, w.row)
    } else if kw == "label"@ {
        let a = scan_word(text, w.end, w.row);
        match parse_usize_text(a.word) {
            Some(v) => ScanStep::Tok(InstV { token: TokenV::Label(v), row: w.row }, a.end, a.row),
            None => ScanStep::Fail(
                ScanErrV { row: a.row, word: a.word, kind: ScanErrorKind::BadNumber },
            ),
        }
    } else if kw == "goto"@ {
        let a = scan_word(text, w.end, w.row);
        match parse_usize_text(a.word) {
            Some(v) => ScanStep::Tok(InstV { token: TokenV::Goto(v), row: w.row }, a.end, a.row),
            None => ScanStep::Fail(
                ScanErrV { row: a.row, word: a.word, kind: ScanErrorKind::BadNumber },
            ),
        }
    } else if kw == "branch"@ {
        let a = scan_word(text, w.end, w.row);
        match parse_usize_text(a.word) {
            Some(v) => ScanStep::Tok(InstV { token: TokenV::Branch(v), row: w.row }, a.end, a.row),
            None => ScanStep::Fail(
                ScanErrV { row: a.row, word: a.word, kind: ScanErrorKind::BadNumber },
            ),
        }
    } else if kw == "add"@ {
        ScanStep::Tok(InstV { token: TokenV::Add, row: w.row }, w.end, w.row)
    } else if kw == "sub"@ {
        ScanStep::Tok(InstV { token: TokenV::Sub, row: w.row }, w.end, w.row)
    } else if kw == "mul"@ {
        ScanStep::Tok(InstV { token: TokenV::Mul, row: w.row }, w.end, w.row)
    } else if kw == "div"@ {
        ScanStep::Tok(InstV { token: TokenV::Div, row: w.row }, w.end, w.row)
    } else if kw == "rem"@ {
        ScanStep::Tok(InstV { token: TokenV::Rem, row: w.row }, w.end, w.row)
    } else if kw == "eq"@ {
        ScanStep::Tok(InstV { token: TokenV::Eq, row: w.row }, w.end, w.row)
    } else if kw == "ne"@ {
        ScanStep::Tok(InstV { token: TokenV::Ne, row: w.row }, w.end, w.row)
    } else if kw == "lt"@ {
        ScanStep::Tok(InstV { token: TokenV::Lt, row: w.row }, w.end, w.row)
    } else if kw == "le"@ {
        ScanStep::Tok(InstV { token: TokenV::Le, row: w.row }, w.end, w.row)
    } else if kw == "gt"@ {
        ScanStep::Tok(InstV { token: TokenV::Gt, row: w.row }, w.end, w.row)
    } else if kw == "ge"@ {
        ScanStep::Tok(InstV { token: TokenV::Ge, row: w.row }, w.end, w.row)
    } else {
        ScanStep::Fail(ScanErrV { row: w.row, word: kw, kind: ScanErrorKind::BadKeyword })
    }
}

/// An instruction scan consumes at least one character, stays within the
/// text, and only moves the row forward; the instruction's row is not below
/// the starting row.
pub proof fn lemma_scan_inst_advances(text: Seq<char>, i: int, row: int)
    requires
        0 <= i,
    ensures
        match scan_inst(text, i, row) {
            ScanStep::Tok(v, i2, r2) => i < i2 <= text.len() && row <= v.row <= r2,
            _ => true,
        },
{
    if i <= text.len() {
        let w = scan_word(text, i, row);
        lemma_scan_word_bounds(text, i, row);
        if w.word.len() > 0 {
            lemma_scan_word_bounds(text, w.end, w.row);
            let nm = scan_word(text, w.end, w.row);
            lemma_scan_word_bounds(text, nm.end, nm.row);
            let pw = scan_word(text, nm.end, nm.row);
            if w.word == "defun"@ {
                match parse_usize_text(pw.word) {
                    Some(k) => {
                        lemma_scan_types_bounds(text, pw.end, pw.row, k as nat);
                        let (ts, te, tr) = scan_types(text, pw.end, pw.row, k as nat);
                        lemma_scan_word_bounds(text, te, tr);
                    },
                    None => {},
                }
            }
            if w.word == "stores"@ {
                match parse_usize_text(nm.word) {
                    Some(_) => {
                        lemma_scan_word_bounds(text, pw.end, pw.row);
                    },
                    None => {},
                }
            }
        }
    } else {
        assert(seek(text, i, row, false) == (text.len() as int, row));
    }
}

/// The whole remaining token stream from a position: every instruction up to
/// the end of the text or to the first lexing error, and that error if one
/// cut the stream short.
pub open spec fn scan_stream(text: Seq<char>, i: int, row: int) -> (Seq<InstV>, Option<ScanErrV>)
    decreases text.len() - i,
    via scan_stream_dec
{
    if i < 0 {
        (Seq::empty(), None)
    } else {
        match scan_inst(text, i, row) {
            ScanStep::End => (Seq::empty(), None),
            ScanStep::Fail(e) => (Seq::empty(), Some(e)),
            ScanStep::Tok(v, i2, r2) => {
                let rest = scan_stream(text, i2, r2);
                (seq![v] + rest.0, rest.1)
            },
        }
    }
}

#[via_fn]
proof fn scan_stream_dec(text: Seq<char>, i: int, row: int) {
    if i >= 0 {
        lemma_scan_inst_advances(text, i, row);
    }
}

/// Every instruction of a scan carries a row at or above the starting row,
/// and the rows never decrease along the stream.
pub proof fn lemma_scan_rows_monotone(text: Seq<char>, i: int, row: int)
    ensures
        ({
            let (s, _) = scan_stream(text, i, row);
            forall|a: int| 0 <= a < s.len() ==> #[trigger] s[a].row >= row
        }),
        ({
            let (s, _) = scan_stream(text, i, row);
            forall|a: int, b: int| 0 <= a <= b < s.len() ==> s[a].row <= s[b].row
        }),
    decreases text.len() - i,
{
    if i >= 0 {
        lemma_scan_inst_advances(text, i, row);
        match scan_inst(text, i, row) {
            ScanStep::Tok(v, i2, r2) => {
                lemma_scan_rows_monotone(text, i2, r2);
                let s = scan_stream(text, i, row).0;
                let rest = scan_stream(text, i2, r2).0;
                assert forall|a: int| 0 <= a < s.len() implies #[trigger] s[a].row >= row by {
                    if a > 0 {
                        assert(s[a] == rest[a - 1]);
                    }
                }
                assert forall|a: int, b: int| 0 <= a <= b < s.len() implies s[a].row
                    <= s[b].row by {
                    if a > 0 {
                        assert(s[a] == rest[a - 1]);
                        assert(s[b] == rest[b - 1]);
                    } else if b > 0 {
                        assert(s[b] == rest[b - 1]);
                        assert(rest[b - 1].row >= r2);
                    }
                }
            },
            _ => {},
        }
    }
}

/// The rows of the token stream of any source text are monotonically
/// non-decreasing, in the order the tokens are emitted.
pub proof fn tokenizer_rows_monotone(text: Seq<char>)
    ensures
        ({
            let (s, _) = scan_stream(text, 0, 0);
            forall|a: int, b: int| 0 <= a <= b < s.len() ==> s[a].row <= s[b].row
        }),
{
    lemma_scan_rows_monotone(text, 0, 0);
}

/// The tokenizer: a pull-based stream over the source text with one-token
/// lookahead. Not restartable; after a lexing error the stream stays ended
/// and the error is kept.
pub struct Scanner {
    pub(crate) data: Vec<char>,
    pub(crate) index: usize,
    pub(crate) row: usize,
    pub(crate) curr: Option<Inst>,
    pub(crate) err: Option<ScanError>,
}

impl Scanner {
    /// Internal consistency: the cursor is inside the text, the row count
    /// never exceeds it, a quiet ended scanner really is at the end, and an
    /// error always ends the stream.
    pub closed spec fn wf(&self) -> bool {
        &&& self.row <= self.index <= self.data@.len()
        &&& (self.curr is None && self.err is None ==> self.index == self.data@.len())
        &&& (self.err is Some ==> self.curr is None)
    }

    /// The instructions this scanner will still yield, lookahead included.
    pub closed spec fn insts(&self) -> Seq<InstV> {
        match self.curr {
            Some(c) => seq![c@] + scan_stream(self.data@, self.index as int, self.row as int).0,
            None => Seq::empty(),
        }
    }

    /// The lexing error that will cut the stream short, if any.
    pub closed spec fn fin(&self) -> Option<ScanErrV> {
        match self.curr {
            Some(_) => scan_stream(self.data@, self.index as int, self.row as int).1,
            None => match self.err {
                Some(e) => Some(e@),
                None => None,
            },
        }
    }

    /// Builds a scanner over the given source text and reads its first
    /// instruction into the lookahead slot.
    pub fn from_string(input: String) -> (s: Scanner)
        ensures
            s.wf(),
            s.insts() == scan_stream(input@, 0, 0).0,
            s.fin() == scan_stream(input@, 0, 0).1,
    {
        let data = chars_vec(input.as_str());
        let mut s = Scanner { data, index: 0, row: 0, curr: None, err: None };
        s.update();
        proof {
            let text = s.data@;
            lemma_scan_inst_advances(text, 0, 0);
            match scan_inst(text, 0, 0) {
                ScanStep::End => {
                    assert(s.insts() =~= scan_stream(text, 0, 0).0);
                },
                ScanStep::Fail(e) => {
                    assert(s.insts() =~= scan_stream(text, 0, 0).0);
                },
                ScanStep::Tok(v, i2, r2) => {
                    assert(s.insts() =~= scan_stream(text, 0, 0).0);
                },
            }
        }
        s
    }

    /// Reads the next raw word: skips separators and comments, then takes a
    /// quoted span or a separator-delimited run. Empty means end of input.
    fn next_word(&mut self) -> (w: Vec<char>)
        requires
            old(self).row <= old(self).index <= old(self).data@.len(),
        ensures
            ({
                let ws = scan_word(old(self).data@, old(self).index as int, old(self).row as int);
                &&& w@ == ws.word
                &&& final(self).index == ws.end
                &&& final(self).row == ws.row
            }),
            final(self).data == old(self).data,
            final(self).curr == old(self).curr,
            final(self).err == old(self).err,
            final(self).row <= final(self).index <= final(self).data@.len(),
    {
        let ghost text = self.data@;
        let ghost i0 = self.index as int;
        let ghost r0 = self.row as int;
        let mut com = false;
        loop
            invariant
                self.data == old(self).data,
                self.curr == old(self).curr,
                self.err == old(self).err,
                self.row <= self.index <= text.len(),
                text == self.data@,
                seek(text, self.index as int, self.row as int, com) == seek(text, i0, r0, false),
            ensures
                seek(text, i0, r0, false) == (self.index as int, self.row as int),
            decreases text.len() - self.index,
        {
            if self.index >= self.data.len() {
                break;
            }
            let c = self.data[self.index];
            if com {
                if c == '\n' {
                    self.row = self.row + 1;
                    com = false;
                }
                self.index = self.index + 1;
            } else if c == ';' {
                com = true;
                self.index = self.index + 1;
            } else if c == ' ' || c == '\n' || c == '\r' {
                if c == '\n' {
                    self.row = self.row + 1;
                }
                self.index = self.index + 1;
            } else {
                break;
            }
        }
        let ghost j = self.index as int;
        let ghost rw = self.row as int;
        if self.index >= self.data.len() {
            return Vec::new();
        }
        let c = self.data[self.index];
        let mut w: Vec<char> = Vec::new();
        if c == '"' {
            self.index = self.index + 1;
            let ghost q = quote_end(text, j + 1);
            loop
                invariant_except_break
                    quote_end(text, self.index as int) == q,
                    w@ == text.subrange(j + 1, self.index as int),
                invariant
                    self.data == old(self).data,
                    self.curr == old(self).curr,
                    self.err == old(self).err,
                    self.row as int == rw,
                    rw <= j < text.len(),
                    j + 1 <= self.index <= text.len(),
                    text == self.data@,
                    i0 == old(self).index as int,
                    r0 == old(self).row as int,
                    text[j] == '"',
                    q == quote_end(text, j + 1),
                    seek(text, i0, r0, false) == (j, rw),
                ensures
                    q < text.len(),
                    self.index == q + 1,
                    w@ == text.subrange(j + 1, q),
                decreases text.len() - self.index,
            {
                if self.index >= self.data.len() {
                    // unclosed quote: the span is discarded and the stream
                    // ends here
                    proof {
                        assert(self.index == text.len());
                        assert(quote_end(text, self.index as int) == text.len() as int);
                        assert(q == text.len() as int);
                        let ws = scan_word(text, i0, r0);
                        assert(ws.word == Seq::<char>::empty());
                        assert(ws.end == text.len() as int);
                        assert(ws.row == rw);
                    }
                    return Vec::new();
                }
                let c2 = self.data[self.index];
                if c2 == '"' {
                    proof {
                        assert(quote_end(text, self.index as int) == self.index as int);
                    }
                    self.index = self.index + 1;
                    break;
                }
                w.push(c2);
                proof {
                    assert(w@ =~= text.subrange(j + 1, self.index + 1));
                }
                self.index = self.index + 1;
            }
            w
        } else {
            let ghost e = word_end(text, j);
            proof {
                lemma_word_end_bounds(text, j);
            }
            loop
                invariant
                    self.data == old(self).data,
                    self.curr == old(self).curr,
                    self.err == old(self).err,
                    self.row as int == rw,
                    rw <= j <= self.index <= text.len(),
                    text == self.data@,
                    word_end(text, self.index as int) == e,
                    j <= e <= text.len(),
                    w@ == text.subrange(j, self.index as int),
                ensures
                    self.index == e,
                    w@ == text.subrange(j, e),
                decreases text.len() - self.index,
            {
                if self.index >= self.data.len() {
                    break;
                }
                let c2 = self.data[self.index];
                if c2 == ' ' || c2 == '\n' || c2 == '\r' {
                    break;
                }
                w.push(c2);
                proof {
                    assert(w@ =~= text.subrange(j, self.index + 1));
                }
                self.index = self.index + 1;
            }
            w
        }
    }

    /// Scans the next instruction into the lookahead slot: one keyword word
    /// and its argument words. An empty keyword word ends the stream; a
    /// malformed argument or unknown keyword records the error and ends it.
    #[verifier::rlimit(60)]
    fn update(&mut self)
        requires
            old(self).err is None,
            old(self).row <= old(self).index <= old(self).data@.len(),
        ensures
            final(self).data == old(self).data,
            final(self).row <= final(self).index <= final(self).data@.len(),
            match scan_inst(old(self).data@, old(self).index as int, old(self).row as int) {
                ScanStep::End => final(self).curr is None && final(self).err is None
                    && final(self).index == final(self).data@.len(),
                ScanStep::Tok(v, i2, r2) => {
                    &&& final(self).curr matches Some(c) && c@ == v
                    &&& final(self).err is None
                    &&& final(self).index == i2
                    &&& final(self).row == r2
                },
                ScanStep::Fail(e) => final(self).curr is None && (final(self).err matches Some(x)
                    && x@ == e),
            },
    {
        let ghost text = self.data@;
        let w = self.next_word();
        if w.len() == 0 {
            self.curr = None;
            let n = self.data.len();
            self.index = n;
            return ;
        }
        let kw_row = self.row;
        if word_is(&w, ".raw") {
            self.curr = Some(Inst { token: Token::SRaw, row: kw_row });
        } else if word_is(&w, ".class") {
            self.curr = Some(Inst { token: Token::SClass, row: kw_row });
        } else if word_is(&w, ".function") {
            self.curr = Some(Inst { token: Token::SFn, row: kw_row });
        } else if word_is(&w, "defun") {
            let nm = self.next_word();
            let name = string_from_chars(&nm);
            let pw = self.next_word();
            match parse_usize(&pw) {
                Some(k) => {
                    let ghost t0 = self.index as int;
                    let ghost r0 = self.row as int;
                    let mut par_types: Vec<Type> = Vec::new();
                    let mut cnt: usize = 0;
                    proof {
                        assert(types_v(par_types@) =~= Seq::<TypeV>::empty());
                        assert(types_v(par_types@) + scan_types(text, t0, r0, k as nat).0
                            =~= scan_types(text, t0, r0, k as nat).0);
                    }
                    while cnt < k
                        invariant
                            self.data == old(self).data,
                            self.curr == old(self).curr,
                            self.err == old(self).err,
                            self.row <= self.index <= text.len(),
                            text == self.data@,
                            cnt <= k,
                            scan_types(text, t0, r0, k as nat).0 == types_v(par_types@)
                                + scan_types(
                                text,
                                self.index as int,
                                self.row as int,
                                (k - cnt) as nat,
                            ).0,
                            scan_types(text, t0, r0, k as nat).1 == scan_types(
                                text,
                                self.index as int,
                                self.row as int,
                                (k - cnt) as nat,
                            ).1,
                            scan_types(text, t0, r0, k as nat).2 == scan_types(
                                text,
                                self.index as int,
                                self.row as int,
                                (k - cnt) as nat,
                            ).2,
                        decreases k - cnt,
                    {
                        let ghost i_at = self.index as int;
                        let ghost r_at = self.row as int;
                        let ghost m = (k - cnt) as nat;
                        let tw = self.next_word();
                        let ts = string_from_chars(&tw);
                        par_types.push(Type::from_string(ts));
                        cnt = cnt + 1;
                        proof {
                            let ws = scan_word(text, i_at, r_at);
                            assert(scan_types(text, i_at, r_at, m).0 == seq![
                                type_of_word(ws.word),
                            ] + scan_types(text, ws.end, ws.row, (m - 1) as nat).0);
                            assert(types_v(par_types@) =~= types_v(par_types@.drop_last()).push(
                                type_of_word(ws.word),
                            ));
                            assert(types_v(par_types@.drop_last()) + (seq![type_of_word(ws.word)]
                                + scan_types(text, ws.end, ws.row, (m - 1) as nat).0)
                                =~= types_v(par_types@) + scan_types(
                                text,
                                ws.end,
                                ws.row,
                                (m - 1) as nat,
                            ).0);
                        }
                    }
                    let rw = self.next_word();
                    let rt = Type::from_string(string_from_chars(&rw));
                    proof {
                        assert(scan_types(text, self.index as int, self.row as int, 0).0
                            =~= Seq::<TypeV>::empty());
                        assert(types_v(par_types@) + Seq::<TypeV>::empty() =~= types_v(
                            par_types@,
                        ));
                    }
                    self.curr = Some(Inst { token: Token::Defun(name, par_types, rt), row: kw_row });
                },
                None => {
                    self.curr = None;
                    self.err = Some(
                        ScanError {
                            row: self.row,
                            word: string_from_chars(&pw),
                            kind: ScanErrorKind::BadNumber,
                        },
                    );
                },
            }
        } else if word_is(&w, "endef") {
            self.curr = Some(Inst { token: Token::Endef, row: kw_row });
        } else if word_is(&w, "pushi") {
            let a = self.next_word();
            match parse_i32(&a) {
                Some(v) => {
                    self.curr = Some(Inst { token: Token::Pushi(v), row: kw_row });
                },
                None => {
                    self.curr = None;
                    self.err = Some(
                        ScanError {
                            row: self.row,
                            word: string_from_chars(&a),
                            kind: ScanErrorKind::BadNumber,
                        },
                    );
                },
            }
        } else if word_is(&w, "pushf") {
            let a = self.next_word();
            if a.len() > 0x7fff_ffff {
                self.curr = None;
                self.err = Some(
                    ScanError {
                        row: self.row,
                        word: string_from_chars(&a),
                        kind: ScanErrorKind::BadNumber,
                    },
                );
            } else {
                match float::parse(&a) {
                    Some(b) => {
                        self.curr = Some(Inst { token: Token::Pushf(b), row: kw_row });
                    },
                    None => {
                        self.curr = None;
                        self.err = Some(
                            ScanError {
                                row: self.row,
                                word: string_from_chars(&a),
                                kind: ScanErrorKind::BadNumber,
                            },
                        );
                    },
                }
            }
        } else if word_is(&w, "load") {
            let a = self.next_word();
            match parse_usize(&a) {
                Some(v) => {
                    self.curr = Some(Inst { token: Token::Load(v), row: kw_row });
                },
                None => {
                    self.curr = None;
                    self.err = Some(
                        ScanError {
                            row: self.row,
                            word: string_from_chars(&a),
                            kind: ScanErrorKind::BadNumber,
                        },
                    );
                },
            }
        } else if word_is(&w, "store") {
            let a = self.next_word();
            match parse_usize(&a) {
                Some(v) => {
                    self.curr = Some(Inst { token: Token::Store(v), row: kw_row });
                },
                None => {
                    self.curr = None;
                    self.err = Some(
                        ScanError {
                            row: self.row,
                            word: string_from_chars(&a),
                            kind: ScanErrorKind::BadNumber,
                        },
                    );
                },
            }
        } else if word_is(&w, "stores") {
            let a = self.next_word();
            match parse_usize(&a) {
                Some(v) => {
                    let sz = self.next_word();
                    match parse_usize(&sz) {
                        Some(_) => {
                            let dw = self.next_word();
                            let data_word = string_from_chars(&dw);
                            self.curr = Some(
                                Inst { token: Token::Stores(v, data_word), row: kw_row },
                            );
                        },
                        None => {
                            self.curr = None;
                            self.err = Some(
                                ScanError {
                                    row: self.row,
                                    word: string_from_chars(&sz),
                                    kind: ScanErrorKind::BadNumber,
                                },
                            );
                        },
                    }
                },
                None => {
                    self.curr = None;
                    self.err = Some(
                        ScanError {
                            row: self.row,
                            word: string_from_chars(&a),
                            kind: ScanErrorKind::BadNumber,
                        },
                    );
                },
            }
        } else if word_is(&w, "call") {
            let a = self.next_word();
            let name = string_from_chars(&a);
            self.curr = Some(Inst { token: Token::Call(name), row: kw_row });
        } else if word_is(&w, "dup") {
            self.curr = Some(Inst { token: Token::Dup, row: kw_row });
        } else if word_is(&w, "pop") {
            self.curr = Some(Inst { token: Token::Pop, row: kw_row });
        } else if word_is(&w, "label") {
            let a = self.next_word();
            match parse_usize(&a) {
                Some(v) => {
                    self.curr = Some(Inst { token: Token::Label(v), row: kw_row });
                },
                None => {
                    self.curr = None;
                    self.err = Some(
                        ScanError {
                            row: self.row,
                            word: string_from_chars(&a),
                            kind: ScanErrorKind::BadNumber,
                        },
                    );
                },
            }
        } else if word_is(&w, "goto") {
            let a = self.next_word();
            match parse_usize(&a) {
                Some(v) => {
                    self.curr = Some(Inst { token: Token::Goto(v), row: kw_row });
                },
                None => {
                    self.curr = None;
                    self.err = Some(
                        ScanError {
                            row: self.row,
                            word: string_from_chars(&a),
                            kind: ScanErrorKind::BadNumber,
                        },
                    );
                },
            }
        } else if word_is(&w, "branch") {
            let a = self.next_word();
            match parse_usize(&a) {
                Some(v) => {
                    self.curr = Some(Inst { token: Token::Branch(v), row: kw_row });
                },
                None => {
                    self.curr = None;
                    self.err = Some(
                        ScanError {
                            row: self.row,
                            word: string_from_chars(&a),
                            kind: ScanErrorKind::BadNumber,
                        },
                    );
                },
            }
        } else if word_is(&w, "add") {
            self.curr = Some(Inst { token: Token::Add, row: kw_row });
        } else if word_is(&w, "sub") {
            self.curr = Some(Inst { token: Token::Sub, row: kw_row });
        } else if word_is(&w, "mul") {
            self.curr = Some(Inst { token: Token::Mul, row: kw_row });
        } else if word_is(&w, "div") {
            self.curr = Some(Inst { token: Token::Div, row: kw_row });
        } else if word_is(&w, "rem") {
            self.curr = Some(Inst { token: Token::Rem, row: kw_row });
        } else if word_is(&w, "eq") {
            self.curr = Some(Inst { token: Token::Eq, row: kw_row });
        } else if word_is(&w, "ne") {
            self.curr = Some(Inst { token: Token::Ne, row: kw_row });
        } else if word_is(&w, "lt") {
            self.curr = Some(Inst { token: Token::Lt, row: kw_row });
        } else if word_is(&w, "le") {
            self.curr = Some(Inst { token: Token::Le, row: kw_row });
        } else if word_is(&w, "gt") {
            self.curr = Some(Inst { token: Token::Gt, row: kw_row });
        } else if word_is(&w, "ge") {
            self.curr = Some(Inst { token: Token::Ge, row: kw_row });
        } else {
            self.curr = None;
            self.err = Some(
                ScanError {
                    row: kw_row,
                    word: string_from_chars(&w),
                    kind: ScanErrorKind::BadKeyword,
                },
            );
        }
    }

    /// Whether the stream still holds an instruction.
    pub fn has_next(&mut self) -> (r: bool)
        requires
            old(self).wf(),
        ensures
            *final(self) == *old(self),
            r == (old(self).insts().len() > 0),
    {
        match self.curr {
            Some(_) => true,
            None => false,
        }
    }

    /// The lookahead instruction, without consuming it.
    pub fn peek(&mut self) -> (r: Option<Inst>)
        requires
            old(self).wf(),
        ensures
            *final(self) == *old(self),
            match r {
                Some(i) => old(self).insts().len() > 0 && i@ == old(self).insts()[0],
                None => old(self).insts().len() == 0,
            },
    {
        match &self.curr {
            Some(i) => Some(i.clone()),
            None => None,
        }
    }

    /// Consumes and returns the next instruction, scanning one more into the
    /// lookahead slot.
    pub fn next(&mut self) -> (r: Option<Inst>)
        requires
            old(self).wf(),
        ensures
            final(self).wf(),
            match r {
                Some(i) => {
                    &&& old(self).insts().len() > 0
                    &&& i@ == old(self).insts()[0]
                    &&& final(self).insts() == old(self).insts().drop_first()
                    &&& final(self).fin() == old(self).fin()
                },
                None => {
                    &&& old(self).insts().len() == 0
                    &&& final(self).insts() == old(self).insts()
                    &&& final(self).fin() == old(self).fin()
                },
            },
    {
        let val = match &self.curr {
            Some(i) => Some(i.clone()),
            None => None,
        };
        if val.is_some() {
            let ghost text = self.data@;
            let ghost i0 = self.index as int;
            let ghost r0 = self.row as int;
            self.update();
            proof {
                lemma_scan_inst_advances(text, i0, r0);
                match scan_inst(text, i0, r0) {
                    ScanStep::End => {
                        assert(self.insts() =~= old(self).insts().drop_first());
                    },
                    ScanStep::Fail(e) => {
                        assert(self.insts() =~= old(self).insts().drop_first());
                    },
                    ScanStep::Tok(v, i2, r2) => {
                        assert(self.insts() =~= old(self).insts().drop_first());
                    },
                }
            }
        }
        val
    }

    /// The lexing error that ended the stream, if one did.
    pub fn scan_error(&self) -> (r: &Option<ScanError>)
        requires
            self.wf(),
        ensures
            match r {
                Some(e) => self.insts().len() == 0 && self.fin() == Some(e@),
                None => self.insts().len() > 0 || self.fin() is None,
            },
    {
        &self.err
    }
}

} // verus!
