//! Error values for the two failure classes: build-time (lexing and grammar
//! violations) and run-time (semantic violations during interpretation).
//! Both are unrecoverable by design: the embedding program is expected to
//! report the diagnostic and abort.

use vstd::prelude::*;
use vstd::string::StringExecFns;

use crate::atom::Atom;
use crate::atom::AtomV;

verus! {

/// Mathematical image of a [`RunError`]: strings become character sequences,
/// atoms become their views.
pub enum FaultV {
    /// An instruction needed an operand but the operand stack was empty.
    StackEmpty,
    /// A binary operation was applied to operands of two different kinds.
    TypeMismatch(AtomV, AtomV),
    /// A binary operation was applied to a left operand it is not defined for.
    BadOperand(AtomV),
    /// Integer division or remainder by zero.
    DivByZero,
    /// Integer division or remainder overflowed (minimum value by minus one).
    ArithOverflow,
    /// A heap slot was read past the current heap length.
    HeapBounds(usize),
    /// A chain of heap references did not reach a plain value.
    CircularRef(usize),
    /// A jump named a label id that the surrounding function never defined.
    UnknownLabel(usize),
    /// A conditional branch popped a value that was not an integer.
    NotInt(AtomV),
    /// A call named a function that is neither builtin nor in the table.
    FnNotFound(Seq<char>),
    /// The integer-reading builtin met malformed or exhausted input.
    BadInput(Seq<u8>),
    /// A structural token (a marker, `defun`, `endef`) reached the
    /// interpreter inside a function body.
    BadToken,
    /// The step budget given to the interpreter ran out.
    OutOfFuel,
}

/// A run-time fault. Every variant aborts the run; the payload carries the
/// values involved so the diagnostic can name them.
#[derive(Debug)]
pub enum RunError {
    StackEmpty,
    TypeMismatch(Atom, Atom),
    BadOperand(Atom),
    DivByZero,
    ArithOverflow,
    HeapBounds(usize),
    CircularRef(usize),
    UnknownLabel(usize),
    NotInt(Atom),
    FnNotFound(String),
    BadInput(Vec<u8>),
    BadToken,
    OutOfFuel,
}

impl View for RunError {
    type V = FaultV;

    open spec fn view(&self) -> FaultV {
        match self {
            RunError::StackEmpty => FaultV::StackEmpty,
            RunError::TypeMismatch(l, r) => FaultV::TypeMismatch(l@, r@),
            RunError::BadOperand(l) => FaultV::BadOperand(l@),
            RunError::DivByZero => FaultV::DivByZero,
            RunError::ArithOverflow => FaultV::ArithOverflow,
            RunError::HeapBounds(i) => FaultV::HeapBounds(*i),
            RunError::CircularRef(i) => FaultV::CircularRef(*i),
            RunError::UnknownLabel(l) => FaultV::UnknownLabel(*l),
            RunError::NotInt(a) => FaultV::NotInt(a@),
            RunError::FnNotFound(n) => FaultV::FnNotFound(n@),
            RunError::BadInput(w) => FaultV::BadInput(w@),
            RunError::BadToken => FaultV::BadToken,
            RunError::OutOfFuel => FaultV::OutOfFuel,
        }
    }
}

/// What went wrong while lexing one word.
#[derive(Debug, Clone, Copy, PartialEq, Eq, Structural)]
pub enum ScanErrorKind {
    /// The leading word of an instruction is not a recognized keyword.
    BadKeyword,
    /// An argument word that must be numeric did not parse.
    BadNumber,
}

/// Mathematical image of a [`ScanError`].
pub struct ScanErrV {
    pub row: int,
    pub word: Seq<char>,
    pub kind: ScanErrorKind,
}

/// A build-time lexing error: the 0-based row, the offending word, and what
/// was wrong with it. Tokenization does not recover from it.
#[derive(Debug)]
pub struct ScanError {
    pub row: usize,
    pub word: String,
    pub kind: ScanErrorKind,
}

impl View for ScanError {
    type V = ScanErrV;

    open spec fn view(&self) -> ScanErrV {
        ScanErrV { row: self.row as int, word: self.word@, kind: self.kind }
    }
}

impl Clone for ScanError {
    fn clone(&self) -> (r: Self)
        ensures
            r == *self,
    {
        ScanError { row: self.row, word: self.word.clone(), kind: self.kind }
    }
}

/// The grammar token the assembler was waiting for when it failed.
#[derive(Debug, Clone, Copy, PartialEq, Eq, Structural)]
pub enum ExpectedTok {
    SRaw,
    SClass,
    SFn,
    Endef,
}

/// Mathematical image of a [`BuildError`].
pub enum BuildErrV {
    Expected { expected: ExpectedTok, found: Option<crate::scanner::InstV> },
    Scan(ScanErrV),
}

/// A build-time grammar error: either the token stream did not match the
/// program grammar (`found` is `None` at end of input), or lexing failed
/// first. Assembly does not recover from it.
#[derive(Debug)]
pub enum BuildError {
    Expected { expected: ExpectedTok, found: Option<crate::scanner::Inst> },
    Scan(ScanError),
}

impl View for BuildError {
    type V = BuildErrV;

    open spec fn view(&self) -> BuildErrV {
        match self {
            BuildError::Expected { expected, found } => BuildErrV::Expected {
                expected: *expected,
                found: match found {
                    Some(i) => Some(i@),
                    None => None,
                },
            },
            BuildError::Scan(e) => BuildErrV::Scan(e@),
        }
    }
}

/// Mathematical image of a [`VmError`].
pub enum VmErrV {
    Build(BuildErrV),
    Run(FaultV),
}

/// Everything that can end a whole pipeline run: a build-time error from
/// tokenization or assembly, or a run-time fault from execution.
#[derive(Debug)]
pub enum VmError {
    Build(BuildError),
    Run(RunError),
}

impl View for VmError {
    type V = VmErrV;

    open spec fn view(&self) -> VmErrV {
        match self {
            VmError::Build(e) => VmErrV::Build(e@),
            VmError::Run(e) => VmErrV::Run(e@),
        }
    }
}

impl VmError {
    /// The diagnostic of whichever stage failed.
    pub fn text(&self) -> String {
        match self {
            VmError::Build(e) => e.text(),
            VmError::Run(e) => e.text(),
        }
    }
}

/// Maps an atom result to its mathematical image, so that a contract can
/// equate it with a spec-level computation in one clause.
pub open spec fn atom_res_v(r: Result<Atom, RunError>) -> Result<AtomV, FaultV> {
    match r {
        Ok(a) => Ok(a@),
        Err(e) => Err(e@),
    }
}

/// The decimal digits of an unsigned value, for diagnostics.
fn dec_u64_chars(n: u64) -> (r: Vec<char>)
    decreases n,
{
    if n < 10 {
        let mut v: Vec<char> = Vec::new();
        v.push(((48 + n) as u8) as char);
        v
    } else {
        let mut v = dec_u64_chars(n / 10);
        v.push(((48 + (n % 10)) as u8) as char);
        v
    }
}

fn usize_string(n: usize) -> String {
    crate::chars::string_from_chars(&dec_u64_chars(n as u64))
}

fn i32_string(v: i32) -> String {
    let m: u64 = if v < 0 {
        (-(v as i64)) as u64
    } else {
        v as u64
    };
    let mut digits = dec_u64_chars(m);
    let mut out: Vec<char> = Vec::new();
    if v < 0 {
        out.push('-');
    }
    out.append(&mut digits);
    crate::chars::string_from_chars(&out)
}

fn bytes_string(b: &Vec<u8>) -> String {
    let mut out: Vec<char> = Vec::new();
    let mut i: usize = 0;
    while i < b.len()
        decreases b@.len() - i,
    {
        out.push(b[i] as char);
        i += 1;
    }
    crate::chars::string_from_chars(&out)
}

/// One atom's debug form, for diagnostics.
fn atom_string(a: &Atom) -> String {
    match a {
        Atom::Ref(r) => {
            let mut s = String::from_str("Ref(");
            s.append(usize_string(*r).as_str());
            s.append(")");
            s
        },
        Atom::VInt(v) => {
            let mut s = String::from_str("VInt(");
            s.append(i32_string(*v).as_str());
            s.append(")");
            s
        },
        Atom::VFloat(b) => {
            let mut s = String::from_str("VFloat(");
            s.append(bytes_string(&crate::float::render(*b)).as_str());
            s.append(")");
            s
        },
        Atom::VString(t) => {
            let mut s = String::from_str("VString(");
            s.append(t.as_str());
            s.append(")");
            s
        },
        Atom::Null => String::from_str("Null"),
    }
}

impl RunError {
    /// The diagnostic the run aborts with, naming the values involved.
    pub fn text(&self) -> String {
        match self {
            RunError::StackEmpty => String::from_str("popping an empty operand stack"),
            RunError::TypeMismatch(l, r) => {
                let mut s = String::from_str("type mismatch!\nl=");
                s.append(atom_string(l).as_str());
                s.append("\nr=");
                s.append(atom_string(r).as_str());
                s
            },
            RunError::BadOperand(l) => {
                let mut s = String::from_str("not implemented for ");
                s.append(atom_string(l).as_str());
                s
            },
            RunError::DivByZero => String::from_str("division or remainder by zero"),
            RunError::ArithOverflow => String::from_str("integer division overflow"),
            RunError::HeapBounds(i) => {
                let mut s = String::from_str("heap slot ");
                s.append(usize_string(*i).as_str());
                s.append(" is out of bounds");
                s
            },
            RunError::CircularRef(i) => {
                let mut s = String::from_str("circular heap reference through slot ");
                s.append(usize_string(*i).as_str());
                s
            },
            RunError::UnknownLabel(l) => {
                let mut s = String::from_str("label ");
                s.append(usize_string(*l).as_str());
                s.append(" not found");
                s
            },
            RunError::NotInt(a) => {
                let mut s = String::from_str("value ");
                s.append(atom_string(a).as_str());
                s.append(" does not have int type");
                s
            },
            RunError::FnNotFound(n) => {
                let mut s = String::from_str("");
                s.append(n.as_str());
                s.append("() not found");
                s
            },
            RunError::BadInput(w) => {
                let mut s = String::from_str("cannot read an integer from input: ");
                s.append(bytes_string(w).as_str());
                s
            },
            RunError::BadToken => String::from_str("structural token inside a function body"),
            RunError::OutOfFuel => String::from_str("step budget exhausted"),
        }
    }
}

impl ScanError {
    /// The diagnostic tokenization aborts with: the row and the offending word.
    pub fn text(&self) -> String {
        let mut s = String::from_str("(scanner) line ");
        s.append(usize_string(self.row).as_str());
        s.append(": ");
        s.append(self.word.as_str());
        match self.kind {
            ScanErrorKind::BadKeyword => {
                s.append(" is not a valid instruction");
            },
            ScanErrorKind::BadNumber => {
                s.append(" is not a valid number");
            },
        }
        s
    }
}

fn expected_string(e: &ExpectedTok) -> String {
    match e {
        ExpectedTok::SRaw => String::from_str("SRaw"),
        ExpectedTok::SClass => String::from_str("SClass"),
        ExpectedTok::SFn => String::from_str("SFn"),
        ExpectedTok::Endef => String::from_str("Endef"),
    }
}

fn token_string(t: &crate::scanner::Token) -> String {
    match t {
        crate::scanner::Token::SRaw => String::from_str("SRaw"),
        crate::scanner::Token::SClass => String::from_str("SClass"),
        crate::scanner::Token::SFn => String::from_str("SFn"),
        crate::scanner::Token::Defun(n, _, _) => {
            let mut s = String::from_str("Defun ");
            s.append(n.as_str());
            s
        },
        crate::scanner::Token::Endef => String::from_str("Endef"),
        crate::scanner::Token::Pushi(_) => String::from_str("Pushi"),
        crate::scanner::Token::Pushf(_) => String::from_str("Pushf"),
        crate::scanner::Token::Pop => String::from_str("Pop"),
        crate::scanner::Token::Dup => String::from_str("Dup"),
        crate::scanner::Token::Load(_) => String::from_str("Load"),
        crate::scanner::Token::Store(_) => String::from_str("Store"),
        crate::scanner::Token::Stores(_, _) => String::from_str("Stores"),
        crate::scanner::Token::Add => String::from_str("Add"),
        crate::scanner::Token::Sub => String::from_str("Sub"),
        crate::scanner::Token::Mul => String::from_str("Mul"),
        crate::scanner::Token::Div => String::from_str("Div"),
        crate::scanner::Token::Rem => String::from_str("Rem"),
        crate::scanner::Token::Eq => String::from_str("Eq"),
        crate::scanner::Token::Ne => String::from_str("Ne"),
        crate::scanner::Token::Lt => String::from_str("Lt"),
        crate::scanner::Token::Le => String::from_str("Le"),
        crate::scanner::Token::Gt => String::from_str("Gt"),
        crate::scanner::Token::Ge => String::from_str("Ge"),
        crate::scanner::Token::Call(n) => {
            let mut s = String::from_str("Call ");
            s.append(n.as_str());
            s
        },
        crate::scanner::Token::Label(_) => String::from_str("Label"),
        crate::scanner::Token::Goto(_) => String::from_str("Goto"),
        crate::scanner::Token::Branch(_) => String::from_str("Branch"),
    }
}

impl BuildError {
    /// The diagnostic assembly aborts with: what was expected and what came.
    pub fn text(&self) -> String {
        match self {
            BuildError::Expected { expected, found } => match found {
                Some(i) => {
                    let mut s = usize_string(i.row);
                    s.append(": expected ");
                    s.append(expected_string(expected).as_str());
                    s.append(", found ");
                    s.append(token_string(&i.token).as_str());
                    s
                },
                None => {
                    let mut s = String::from_str("expected ");
                    s.append(expected_string(expected).as_str());
                    s.append(", found EOF");
                    s
                },
            },
            BuildError::Scan(e) => e.text(),
        }
    }
}

} // verus!
