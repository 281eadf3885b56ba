//! The program assembler: consumes the token stream exactly once, top to
//! bottom, enforcing the program grammar
//! `Program := RawMarker Class Fn`, `Fn := FnMarker DeFun*`,
//! `DeFun := Defun Token* Endef`, and resolving every `label` to its token
//! index within its function body (a repeated label id overwrites: last wins).

use std::collections::HashMap;

use vstd::prelude::*;

use crate::atom::Type;
use crate::atom::TypeV;
use crate::atom::types_v;
use crate::errors::BuildErrV;
use crate::errors::BuildError;
use crate::errors::ExpectedTok;
use crate::errors::ScanErrV;
use crate::scanner::InstV;
use crate::scanner::Scanner;
use crate::scanner::Token;
use crate::scanner::TokenV;
use crate::scanner::tokens_v;

verus! {

broadcast use vstd::seq::group_seq_axioms, vstd::seq_lib::group_seq_lib_default, vstd::std_specs::hash::group_hash_axioms, crate::scanner::lemma_tokens_v_push;

/// Mathematical image of an [`Exec`]: the resolved token vector and the
/// label map over indices into it.
pub struct ExecV {
    pub tokens: Seq<TokenV>,
    pub labels: Map<usize, usize>,
}

/// The unit the interpreter runs: an ordered token vector plus the resolved
/// mapping from label identifier to token index within that same vector.
#[derive(Debug)]
pub struct Exec {
    pub tokens: Vec<Token>,
    pub labels: HashMap<usize, usize>,
}

impl View for Exec {
    type V = ExecV;

    open spec fn view(&self) -> ExecV {
        ExecV { tokens: tokens_v(self.tokens@), labels: self.labels@ }
    }
}

/// Mathematical image of a [`DeFun`].
pub struct DeFunV {
    pub name: Seq<char>,
    pub par_ts: Seq<TypeV>,
    pub ret_t: TypeV,
    pub body: ExecV,
}

/// One function: its name, declared parameter and return types (metadata
/// only, never enforced), and its resolved body. Names need not be unique.
#[derive(Debug)]
pub struct DeFun {
    pub name: String,
    pub par_ts: Vec<Type>,
    pub ret_t: Type,
    pub body: Exec,
}

impl View for DeFun {
    type V = DeFunV;

    open spec fn view(&self) -> DeFunV {
        DeFunV { name: self.name@, par_ts: types_v(self.par_ts@), ret_t: self.ret_t@, body: self.body@ }
    }
}

/// The views of a sequence of functions, element by element.
pub open spec fn defs_v(s: Seq<DeFun>) -> Seq<DeFunV> {
    s.map(|i: int, d: DeFun| d@)
}

pub broadcast proof fn lemma_defs_v_push(s: Seq<DeFun>, d: DeFun)
    ensures
        #[trigger] defs_v(s.push(d)) == defs_v(s).push(d@),
{
    assert(defs_v(s.push(d)) =~= defs_v(s).push(d@));
}

/// The function table: an ordered list of definitions, looked up linearly.
#[derive(Debug)]
pub struct Fn {
    pub defs: Vec<DeFun>,
}

/// Mathematical image of a [`Program`].
pub struct ProgramV {
    pub defs: Seq<DeFunV>,
}

/// An assembled program: the function table, immutable once built.
#[derive(Debug)]
pub struct Program {
    pub func: Fn,
}

impl View for Program {
    type V = ProgramV;

    open spec fn view(&self) -> ProgramV {
        ProgramV { defs: defs_v(self.func.defs@) }
    }
}

/// The error reported where the stream ran dry: the lexing error that cut it
/// short if there was one, otherwise an expected-token report at end of input.
pub open spec fn stream_fail(e: Option<ScanErrV>, expected: ExpectedTok) -> BuildErrV {
    match e {
        Some(s) => BuildErrV::Scan(s),
        None => BuildErrV::Expected { expected, found: None },
    }
}

/// An empty body under construction.
pub open spec fn empty_exec() -> ExecV {
    ExecV { tokens: Seq::empty(), labels: Map::empty() }
}

/// Collects body tokens up to (not including) `endef` or the end of the
/// stream, recording each `label`'s position (last occurrence wins).
pub open spec fn asm_exec(s: Seq<InstV>, acc: ExecV) -> (ExecV, Seq<InstV>)
    decreases s.len(),
{
    if s.len() == 0 {
        (acc, s)
    } else if s[0].token is Endef {
        (acc, s)
    } else {
        let t = s[0].token;
        let labels2 = match t {
            TokenV::Label(l) => acc.labels.insert(l, acc.tokens.len() as usize),
            _ => acc.labels,
        };
        asm_exec(s.drop_first(), ExecV { tokens: acc.tokens.push(t), labels: labels2 })
    }
}

/// While a body is collected, every label map entry points at the `label`
/// token that defined it, inside the body.
proof fn lemma_asm_exec_labels(s: Seq<InstV>, acc: ExecV)
    requires
        acc.tokens.len() + s.len() <= usize::MAX,
        forall|l: usize|
            acc.labels.contains_key(l) ==> #[trigger] acc.labels[l] < acc.tokens.len()
                && acc.tokens[acc.labels[l] as int] == TokenV::Label(l),
    ensures
        ({
            let (ev, _) = asm_exec(s, acc);
            forall|l: usize|
                ev.labels.contains_key(l) ==> #[trigger] ev.labels[l] < ev.tokens.len()
                    && ev.tokens[ev.labels[l] as int] == TokenV::Label(l)
        }),
    decreases s.len(),
{
    if s.len() > 0 && !(s[0].token is Endef) {
        let t = s[0].token;
        let labels2 = match t {
            TokenV::Label(l) => acc.labels.insert(l, acc.tokens.len() as usize),
            _ => acc.labels,
        };
        let acc2 = ExecV { tokens: acc.tokens.push(t), labels: labels2 };
        assert forall|l: usize| acc2.labels.contains_key(l) implies #[trigger] acc2.labels[l]
            < acc2.tokens.len() && acc2.tokens[acc2.labels[l] as int] == TokenV::Label(l) by {
            match t {
                TokenV::Label(l0) => {
                    if l == l0 {
                        assert(acc2.labels[l] == acc.tokens.len());
                        assert(acc2.tokens[acc.tokens.len() as int] == t);
                    } else {
                        assert(acc.labels.contains_key(l));
                        assert(acc2.tokens[acc2.labels[l] as int]
                            == acc.tokens[acc.labels[l] as int]);
                    }
                },
                _ => {
                    assert(acc.labels.contains_key(l));
                    assert(acc2.tokens[acc2.labels[l] as int] == acc.tokens[acc.labels[l] as int]);
                },
            }
        }
        lemma_asm_exec_labels(s.drop_first(), acc2);
    }
}

/// Every entry of an assembled body's label map points at the `label` token
/// that defined it: where the map sends `n` to `k`, token `k` is `label n`.
pub proof fn law_labels_resolved(s: Seq<InstV>)
    requires
        s.len() <= usize::MAX,
    ensures
        ({
            let (ev, _) = asm_exec(s, empty_exec());
            forall|l: usize|
                ev.labels.contains_key(l) ==> #[trigger] ev.labels[l] < ev.tokens.len()
                    && ev.tokens[ev.labels[l] as int] == TokenV::Label(l)
        }),
{
    lemma_asm_exec_labels(s, empty_exec());
}

/// In an assembled body, a `goto n` whose label the body defines transfers
/// control so that the next executed token is exactly the `label n` token
/// the map records (its last occurrence).
pub proof fn law_goto_lands_on_label(
    defs: Seq<DeFunV>,
    s: Seq<InstV>,
    pc: int,
    st: crate::sem::StV,
    fuel: nat,
    n: usize,
)
    requires
        s.len() <= usize::MAX,
        ({
            let (ev, rest) = asm_exec(s, empty_exec());
            0 <= pc < ev.tokens.len() && ev.tokens[pc] == TokenV::Goto(n)
                && ev.labels.contains_key(n)
        }),
        fuel > 0,
    ensures
        ({
            let (ev, rest) = asm_exec(s, empty_exec());
            ev.tokens[ev.labels[n] as int] == TokenV::Label(n) && crate::sem::sim_exec(
                defs,
                ev,
                pc,
                st,
                fuel,
            ) == crate::sem::sim_exec(defs, ev, ev.labels[n] as int, st, (fuel - 1) as nat)
        }),
{
    law_labels_resolved(s);
    let (ev, rest) = asm_exec(s, empty_exec());
    crate::sem::law_goto_transfers(defs, ev, pc, st, fuel, n);
}

/// Reads one function definition, or nothing where the stream does not start
/// with `defun`; a body that reaches the end of input without `endef` fails.
pub open spec fn asm_defun(s: Seq<InstV>, e: Option<ScanErrV>) -> Result<
    (Option<DeFunV>, Seq<InstV>),
    BuildErrV,
> {
    if s.len() == 0 {
        Ok((None, s))
    } else {
        match s[0].token {
            TokenV::Defun(name, par_ts, ret_t) => {
                let (body, rest) = asm_exec(s.drop_first(), empty_exec());
                if rest.len() == 0 {
                    Err(stream_fail(e, ExpectedTok::Endef))
                } else if rest[0].token is Endef {
                    Ok((Some(DeFunV { name, par_ts, ret_t, body }), rest.drop_first()))
                } else {
                    Err(BuildErrV::Expected { expected: ExpectedTok::Endef, found: Some(rest[0]) })
                }
            },
            _ => Ok((None, s)),
        }
    }
}

proof fn lemma_asm_exec_consumes(s: Seq<InstV>, acc: ExecV)
    ensures
        asm_exec(s, acc).1.len() <= s.len(),
    decreases s.len(),
{
    if s.len() > 0 && !(s[0].token is Endef) {
        let t = s[0].token;
        let labels2 = match t {
            TokenV::Label(l) => acc.labels.insert(l, acc.tokens.len() as usize),
            _ => acc.labels,
        };
        lemma_asm_exec_consumes(s.drop_first(), ExecV { tokens: acc.tokens.push(t), labels: labels2 });
    }
}

/// A definition that was read consumed at least its `defun` and its `endef`.
proof fn lemma_asm_defun_consumes(s: Seq<InstV>, e: Option<ScanErrV>)
    ensures
        match asm_defun(s, e) {
            Ok((od, rest)) => rest.len() <= s.len() && (od is Some ==> rest.len() < s.len()),
            Err(_) => true,
        },
{
    if s.len() > 0 {
        match s[0].token {
            TokenV::Defun(name, par_ts, ret_t) => {
                lemma_asm_exec_consumes(s.drop_first(), empty_exec());
            },
            _ => {},
        }
    }
}

/// Reads definitions until the stream no longer starts with `defun`.
pub open spec fn asm_defuns(s: Seq<InstV>, e: Option<ScanErrV>) -> Result<
    (Seq<DeFunV>, Seq<InstV>),
    BuildErrV,
>
    decreases s.len(),
    via asm_defuns_dec
{
    match asm_defun(s, e) {
        Err(x) => Err(x),
        Ok((None, rest)) => Ok((Seq::empty(), rest)),
        Ok((Some(d), rest)) => match asm_defuns(rest, e) {
            Err(x) => Err(x),
            Ok((ds, fin_)) => Ok((seq![d] + ds, fin_)),
        },
    }
}

#[via_fn]
proof fn asm_defuns_dec(s: Seq<InstV>, e: Option<ScanErrV>) {
    lemma_asm_defun_consumes(s, e);
}

/// Consumes the class-section marker; the section itself is always empty.
pub open spec fn asm_class(s: Seq<InstV>, e: Option<ScanErrV>) -> Result<Seq<InstV>, BuildErrV> {
    if s.len() == 0 {
        Err(stream_fail(e, ExpectedTok::SClass))
    } else if s[0].token is SClass {
        Ok(s.drop_first())
    } else {
        Err(BuildErrV::Expected { expected: ExpectedTok::SClass, found: Some(s[0]) })
    }
}

/// Consumes the function-section marker and the definitions after it.
pub open spec fn asm_fn(s: Seq<InstV>, e: Option<ScanErrV>) -> Result<
    (Seq<DeFunV>, Seq<InstV>),
    BuildErrV,
> {
    if s.len() == 0 {
        Err(stream_fail(e, ExpectedTok::SFn))
    } else if s[0].token is SFn {
        asm_defuns(s.drop_first(), e)
    } else {
        Err(BuildErrV::Expected { expected: ExpectedTok::SFn, found: Some(s[0]) })
    }
}

/// Assembles a whole program: raw marker, class section, function section.
/// Tokens after the last definition are ignored, but a lexing error that the
/// one-token lookahead already reached still fails the build.
pub open spec fn asm_program(s: Seq<InstV>, e: Option<ScanErrV>) -> Result<ProgramV, BuildErrV> {
    if s.len() == 0 {
        Err(stream_fail(e, ExpectedTok::SRaw))
    } else if s[0].token is SRaw {
        match asm_class(s.drop_first(), e) {
            Err(x) => Err(x),
            Ok(rest) => match asm_fn(rest, e) {
                Err(x) => Err(x),
                Ok((ds, fin_)) => if fin_.len() == 0 {
                    match e {
                        Some(se) => Err(BuildErrV::Scan(se)),
                        None => Ok(ProgramV { defs: ds }),
                    }
                } else {
                    Ok(ProgramV { defs: ds })
                },
            },
        }
    } else {
        Err(BuildErrV::Expected { expected: ExpectedTok::SRaw, found: Some(s[0]) })
    }
}

/// Builds the error for a stream that ran dry while a token was expected.
fn eof_error(scan: &Scanner, expected: ExpectedTok) -> (r: BuildError)
    requires
        scan.wf(),
        scan.insts().len() == 0,
    ensures
        r@ == stream_fail(scan.fin(), expected),
{
    match scan.scan_error() {
        Some(e) => BuildError::Scan(e.clone()),
        None => BuildError::Expected { expected, found: None },
    }
}

/// Consumes the class-section marker, failing on anything else.
pub fn make_class(scan: Scanner) -> (r: Result<Scanner, BuildError>)
    requires
        scan.wf(),
    ensures
        match r {
            Ok(s2) => {
                &&& s2.wf()
                &&& asm_class(scan.insts(), scan.fin()) == Ok::<Seq<InstV>, BuildErrV>(s2.insts())
                &&& s2.fin() == scan.fin()
            },
            Err(e) => asm_class(scan.insts(), scan.fin()) == Err::<Seq<InstV>, BuildErrV>(e@),
        },
{
    let mut scan = scan;
    match scan.next() {
        Some(v) => match v.token {
            Token::SClass => Ok(scan),
            _ => Err(BuildError::Expected { expected: ExpectedTok::SClass, found: Some(v) }),
        },
        None => Err(eof_error(&scan, ExpectedTok::SClass)),
    }
}

/// Collects one function body up to `endef` or the end of the stream,
/// recording label positions as it goes.
pub fn make_execs(scan: Scanner) -> (r: (Exec, Scanner))
    requires
        scan.wf(),
    ensures
        ({
            let (ev, rest) = asm_exec(scan.insts(), empty_exec());
            &&& r.0@ == ev
            &&& r.1.wf()
            &&& r.1.insts() == rest
            &&& r.1.fin() == scan.fin()
        }),
{
    let ghost s0 = scan.insts();
    let ghost e0 = scan.fin();
    let mut scan = scan;
    let mut execs = Exec { tokens: Vec::new(), labels: HashMap::new() };
    proof {
        assert(execs@.tokens =~= empty_exec().tokens);
        assert(execs@.labels =~= empty_exec().labels);
        assert(execs@ == empty_exec());
    }
    loop
        invariant
            scan.wf(),
            scan.fin() == e0,
            asm_exec(s0, empty_exec()) == asm_exec(scan.insts(), execs@),
        ensures
            scan.wf(),
            scan.fin() == e0,
            asm_exec(s0, empty_exec()) == (execs@, scan.insts()),
        decreases scan.insts().len(),
    {
        let nxt = scan.peek();
        match nxt {
            Some(v) => {
                let ghost s_at = scan.insts();
                let ghost acc_at = execs@;
                match &v.token {
                    Token::Endef => {
                        proof {
                            assert(asm_exec(s_at, acc_at) == (acc_at, s_at));
                        }
                        break;
                    },
                    Token::Label(l) => {
                        let pos = execs.tokens.len();
                        execs.labels.insert(*l, pos);
                    },
                    _ => {},
                }
                execs.tokens.push(v.token);
                scan.next();
                proof {
                    assert(s_at[0].token == v.token@);
                    assert(asm_exec(s_at, acc_at) == asm_exec(scan.insts(), execs@));
                }
            },
            None => {
                proof {
                    assert(asm_exec(scan.insts(), execs@) == (execs@, scan.insts()));
                }
                break;
            },
        }
    }
    (execs, scan)
}

/// The view of a definition that may be absent.
pub open spec fn defun_opt_v(od: Option<DeFun>) -> Option<DeFunV> {
    match od {
        Some(d) => Some(d@),
        None => None,
    }
}

/// Reads one function definition: `defun`, its body up to `endef`, and the
/// `endef` itself; yields nothing where the stream starts with anything else.
pub fn make_defun(scan: Scanner) -> (r: Result<(Option<DeFun>, Scanner), BuildError>)
    requires
        scan.wf(),
    ensures
        match r {
            Ok(p) => {
                &&& p.1.wf()
                &&& p.1.fin() == scan.fin()
                &&& asm_defun(scan.insts(), scan.fin()) == Ok::<_, BuildErrV>(
                    (defun_opt_v(p.0), p.1.insts()),
                )
            },
            Err(e) => asm_defun(scan.insts(), scan.fin()) == Err::<
                (Option<DeFunV>, Seq<InstV>),
                BuildErrV,
            >(e@),
        },
{
    let ghost s0 = scan.insts();
    let ghost e0 = scan.fin();
    let mut scan = scan;
    let first = scan.peek();
    match first {
        Some(v) => {
            match v.token {
                Token::Defun(name, par_ts, ret_t) => {
                    scan.next();
                    let (body, scan2) = make_execs(scan);
                    let mut scan = scan2;
                    match scan.next() {
                        Some(v2) => match v2.token {
                            Token::Endef => {
                                let d = DeFun { name, par_ts, ret_t, body };
                                proof {
                                    assert(s0[0].token == TokenV::Defun(
                                        d@.name,
                                        d@.par_ts,
                                        d@.ret_t,
                                    ));
                                }
                                Ok((Some(d), scan))
                            },
                            _ => Err(
                                BuildError::Expected {
                                    expected: ExpectedTok::Endef,
                                    found: Some(v2),
                                },
                            ),
                        },
                        None => Err(eof_error(&scan, ExpectedTok::Endef)),
                    }
                },
                _ => Ok((None, scan)),
            }
        },
        None => Ok((None, scan)),
    }
}

/// Consumes the function-section marker, then reads definitions until the
/// stream no longer starts with one.
pub fn make_fn(scan: Scanner) -> (r: Result<(Fn, Scanner), BuildError>)
    requires
        scan.wf(),
    ensures
        match r {
            Ok(p) => {
                &&& p.1.wf()
                &&& p.1.fin() == scan.fin()
                &&& asm_fn(scan.insts(), scan.fin()) == Ok::<_, BuildErrV>(
                    (defs_v(p.0.defs@), p.1.insts()),
                )
            },
            Err(e) => asm_fn(scan.insts(), scan.fin()) == Err::<
                (Seq<DeFunV>, Seq<InstV>),
                BuildErrV,
            >(e@),
        },
{
    let ghost sorig = scan.insts();
    let ghost e0 = scan.fin();
    let mut cur = scan;
    match cur.next() {
        Some(v) => match v.token {
            Token::SFn => {
                proof {
                    assert(asm_fn(sorig, e0) == asm_defuns(cur.insts(), e0));
                }
                let mut defs: Vec<DeFun> = Vec::new();
                proof {
                    assert(defs_v(defs@) =~= Seq::<DeFunV>::empty());
                }
                loop
                    invariant
                        cur.wf(),
                        cur.fin() == e0,
                        sorig == scan.insts(),
                        e0 == scan.fin(),
                        asm_fn(sorig, e0) == (match asm_defuns(cur.insts(), e0) {
                            Ok(p) => Ok::<_, BuildErrV>((defs_v(defs@) + p.0, p.1)),
                            Err(x) => Err(x),
                        }),
                    ensures
                        cur.wf(),
                        cur.fin() == e0,
                        asm_fn(sorig, e0) == Ok::<_, BuildErrV>((defs_v(defs@), cur.insts())),
                    decreases cur.insts().len(),
                {
                    let ghost s_at = cur.insts();
                    let ghost defs_at = defs@;
                    let r = make_defun(cur);
                    match r {
                        Ok((od, s2)) => {
                            cur = s2;
                            proof {
                                lemma_asm_defun_consumes(s_at, e0);
                            }
                            match od {
                                Some(d) => {
                                    let ghost dv = defs@;
                                    defs.push(d);
                                    proof {
                                        lemma_defs_v_push(dv, d);
                                        assert(defs_v(defs_at) + (seq![d@] + asm_defuns(
                                            cur.insts(),
                                            e0,
                                        )->Ok_0.0) =~= defs_v(defs@) + asm_defuns(
                                            cur.insts(),
                                            e0,
                                        )->Ok_0.0);
                                    }
                                },
                                None => {
                                    proof {
                                        assert(defs_v(defs@) + Seq::<DeFunV>::empty() =~= defs_v(
                                            defs@,
                                        ));
                                    }
                                    break;
                                },
                            }
                        },
                        Err(e) => {
                            return Err(e);
                        },
                    }
                }
                Ok((Fn { defs }, cur))
            },
            _ => Err(BuildError::Expected { expected: ExpectedTok::SFn, found: Some(v) }),
        },
        None => Err(eof_error(&cur, ExpectedTok::SFn)),
    }
}

/// Assembles a whole program from the token stream: the raw marker, the
/// class section, then the function table.
pub fn make_ir(scan: Scanner) -> (r: Result<Program, BuildError>)
    requires
        scan.wf(),
    ensures
        match r {
            Ok(p) => asm_program(scan.insts(), scan.fin()) == Ok::<_, BuildErrV>(p@),
            Err(e) => asm_program(scan.insts(), scan.fin()) == Err::<ProgramV, BuildErrV>(e@),
        },
{
    let mut scan = scan;
    match scan.next() {
        Some(v) => match v.token {
            Token::SRaw => {
                match make_class(scan) {
                    Ok(scan2) => {
                        match make_fn(scan2) {
                            Ok((func, scan3)) => {
                                let mut scan3 = scan3;
                                match scan3.peek() {
                                    Some(_) => Ok(Program { func }),
                                    None => match scan3.scan_error() {
                                        Some(e) => Err(BuildError::Scan(e.clone())),
                                        None => Ok(Program { func }),
                                    },
                                }
                            },
                            Err(e) => Err(e),
                        }
                    },
                    Err(e) => Err(e),
                }
            },
            _ => Err(BuildError::Expected { expected: ExpectedTok::SRaw, found: Some(v) }),
        },
        None => Err(eof_error(&scan, ExpectedTok::SRaw)),
    }
}

} // verus!
