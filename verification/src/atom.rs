//! The value and memory model: tagged runtime atoms, the operand stack and
//! the addressable heap, and the pure arithmetic and comparison operations
//! over atoms. Every mismatched pairing is an error naming the operands;
//! `Memory` itself performs no validation, by design.

use vstd::prelude::*;

use crate::chars::str_eq;
use crate::errors::FaultV;
use crate::errors::RunError;
use crate::errors::atom_res_v;
use crate::float;

verus! {

/// Mathematical image of a [`Type`].
pub enum TypeV {
    Int,
    Float,
    Str,
    Void,
    Class(Seq<char>),
}

/// Declared value kind for signatures: carried as metadata, never checked at
/// run time. Any word besides the four known ones is an opaque class tag.
#[derive(Debug)]
pub enum Type {
    TInt,
    TFloat,
    TString,
    Void,
    TClass(String),
}

impl View for Type {
    type V = TypeV;

    open spec fn view(&self) -> TypeV {
        match self {
            Type::TInt => TypeV::Int,
            Type::TFloat => TypeV::Float,
            Type::TString => TypeV::Str,
            Type::Void => TypeV::Void,
            Type::TClass(s) => TypeV::Class(s@),
        }
    }
}

impl Clone for Type {
    fn clone(&self) -> (r: Self)
        ensures
            r == *self,
    {
        match self {
            Type::TInt => Type::TInt,
            Type::TFloat => Type::TFloat,
            Type::TString => Type::TString,
            Type::Void => Type::Void,
            Type::TClass(s) => Type::TClass(s.clone()),
        }
    }
}

/// The type a signature word denotes.
pub open spec fn type_of_word(s: Seq<char>) -> TypeV {
    if s == "int"@ {
        TypeV::Int
    } else if s == "float"@ {
        TypeV::Float
    } else if s == "string"@ {
        TypeV::Str
    } else if s == "NULL"@ {
        TypeV::Void
    } else {
        TypeV::Class(s)
    }
}

impl Type {
    /// Reads a signature word: the four known words name the built-in kinds,
    /// anything else is an opaque class tag.
    pub fn from_string(s: String) -> (t: Type)
        ensures
            t@ == type_of_word(s@),
    {
        if str_eq(s.as_str(), "int") {
            Type::TInt
        } else if str_eq(s.as_str(), "float") {
            Type::TFloat
        } else if str_eq(s.as_str(), "string") {
            Type::TString
        } else if str_eq(s.as_str(), "NULL") {
            Type::Void
        } else {
            Type::TClass(s)
        }
    }
}

/// Mathematical image of an [`Atom`].
pub enum AtomV {
    Ref(usize),
    Int(i32),
    Float(u32),
    Str(Seq<char>),
    Null,
}

/// Tagged runtime value: a heap reference, a 32-bit integer, a 32-bit float
/// carried as its IEEE-754 bit pattern, an owned string, or the null
/// (uninitialized) sentinel.
#[derive(Debug, PartialEq, Eq)]
pub enum Atom {
    Ref(usize),
    VInt(i32),
    VFloat(u32),
    VString(String),
    Null,
}

impl View for Atom {
    type V = AtomV;

    open spec fn view(&self) -> AtomV {
        match self {
            Atom::Ref(r) => AtomV::Ref(*r),
            Atom::VInt(v) => AtomV::Int(*v),
            Atom::VFloat(b) => AtomV::Float(*b),
            Atom::VString(s) => AtomV::Str(s@),
            Atom::Null => AtomV::Null,
        }
    }
}

impl Clone for Atom {
    fn clone(&self) -> (r: Self)
        ensures
            r == *self,
    {
        match self {
            Atom::Ref(r) => Atom::Ref(*r),
            Atom::VInt(v) => Atom::VInt(*v),
            Atom::VFloat(b) => Atom::VFloat(*b),
            Atom::VString(s) => Atom::VString(s.clone()),
            Atom::Null => Atom::Null,
        }
    }
}

/// The views of a sequence of types, element by element.
pub open spec fn types_v(s: Seq<Type>) -> Seq<TypeV> {
    s.map(|i: int, t: Type| t@)
}

pub broadcast proof fn lemma_types_v_push(s: Seq<Type>, t: Type)
    ensures
        #[trigger] types_v(s.push(t)) == types_v(s).push(t@),
{
    assert(types_v(s.push(t)) =~= types_v(s).push(t@));
}

/// The views of a sequence of atoms, element by element.
pub open spec fn atoms_v(s: Seq<Atom>) -> Seq<AtomV> {
    s.map(|i: int, a: Atom| a@)
}

pub broadcast proof fn lemma_atoms_v_push(s: Seq<Atom>, a: Atom)
    ensures
        #[trigger] atoms_v(s.push(a)) == atoms_v(s).push(a@),
{
    assert(atoms_v(s.push(a)) =~= atoms_v(s).push(a@));
}

pub broadcast proof fn lemma_atoms_v_drop_last(s: Seq<Atom>)
    requires
        s.len() > 0,
    ensures
        #[trigger] atoms_v(s.drop_last()) == atoms_v(s).drop_last(),
{
    assert(atoms_v(s.drop_last()) =~= atoms_v(s).drop_last());
}

pub broadcast proof fn lemma_atoms_v_subrange_drop(s: Seq<Atom>)
    requires
        s.len() > 0,
    ensures
        #[trigger] atoms_v(s.subrange(0, s.len() - 1)) == atoms_v(s).drop_last(),
{
    assert(atoms_v(s.subrange(0, s.len() - 1)) =~= atoms_v(s).drop_last());
}

pub broadcast proof fn lemma_atoms_v_update(s: Seq<Atom>, i: int, a: Atom)
    requires
        0 <= i < s.len(),
    ensures
        #[trigger] atoms_v(s.update(i, a)) == atoms_v(s).update(i, a@),
{
    assert(atoms_v(s.update(i, a)) =~= atoms_v(s).update(i, a@));
}

/// The operand stack (last in, first out; the end of the vector is the top)
/// and the flat, index-addressed heap. Exactly one instance exists per run,
/// threaded by exclusive ownership through every instruction.
#[derive(Debug)]
pub struct Memory {
    pub stack: Vec<Atom>,
    pub heap: Vec<Atom>,
}

impl Memory {
    /// An empty memory: no operands, no heap slots.
    pub fn new() -> (m: Memory)
        ensures
            m.stack@ =~= Seq::<Atom>::empty(),
            m.heap@ =~= Seq::<Atom>::empty(),
    {
        Memory { stack: Vec::new(), heap: Vec::new() }
    }
}

/// Addition: integers wrap; floats follow IEEE-754 on their bit patterns;
/// a mixed or non-numeric pairing is an error naming the operands.
pub open spec fn atom_plus(l: AtomV, r: AtomV) -> Result<AtomV, FaultV> {
    match (l, r) {
        (AtomV::Int(x), AtomV::Int(y)) => Ok(AtomV::Int(x.wrapping_add(y))),
        (AtomV::Int(_), _) => Err(FaultV::TypeMismatch(l, r)),
        (AtomV::Float(a), AtomV::Float(b)) => Ok(AtomV::Float(float::add_bits(a, b))),
        (AtomV::Float(_), _) => Err(FaultV::TypeMismatch(l, r)),
        _ => Err(FaultV::BadOperand(l)),
    }
}

/// Subtraction, under the same pairing rules as [`atom_plus`].
pub open spec fn atom_minus(l: AtomV, r: AtomV) -> Result<AtomV, FaultV> {
    match (l, r) {
        (AtomV::Int(x), AtomV::Int(y)) => Ok(AtomV::Int(x.wrapping_sub(y))),
        (AtomV::Int(_), _) => Err(FaultV::TypeMismatch(l, r)),
        (AtomV::Float(a), AtomV::Float(b)) => Ok(AtomV::Float(float::sub_bits(a, b))),
        (AtomV::Float(_), _) => Err(FaultV::TypeMismatch(l, r)),
        _ => Err(FaultV::BadOperand(l)),
    }
}

/// Multiplication, under the same pairing rules as [`atom_plus`].
pub open spec fn atom_mult(l: AtomV, r: AtomV) -> Result<AtomV, FaultV> {
    match (l, r) {
        (AtomV::Int(x), AtomV::Int(y)) => Ok(AtomV::Int(x.wrapping_mul(y))),
        (AtomV::Int(_), _) => Err(FaultV::TypeMismatch(l, r)),
        (AtomV::Float(a), AtomV::Float(b)) => Ok(AtomV::Float(float::mul_bits(a, b))),
        (AtomV::Float(_), _) => Err(FaultV::TypeMismatch(l, r)),
        _ => Err(FaultV::BadOperand(l)),
    }
}

/// Division: integer division by zero and the overflowing quotient are
/// errors; float division follows IEEE-754 and never faults.
pub open spec fn atom_div(l: AtomV, r: AtomV) -> Result<AtomV, FaultV> {
    match (l, r) {
        (AtomV::Int(x), AtomV::Int(y)) => if y == 0 {
            Err(FaultV::DivByZero)
        } else {
            match x.checked_div(y) {
                Some(q) => Ok(AtomV::Int(q)),
                None => Err(FaultV::ArithOverflow),
            }
        },
        (AtomV::Int(_), _) => Err(FaultV::TypeMismatch(l, r)),
        (AtomV::Float(a), AtomV::Float(b)) => Ok(AtomV::Float(float::div_bits(a, b))),
        (AtomV::Float(_), _) => Err(FaultV::TypeMismatch(l, r)),
        _ => Err(FaultV::BadOperand(l)),
    }
}

/// Remainder: integer-only; a zero divisor and the overflowing case are
/// errors, and a float left operand is not accepted at all.
pub open spec fn atom_rem(l: AtomV, r: AtomV) -> Result<AtomV, FaultV> {
    match (l, r) {
        (AtomV::Int(x), AtomV::Int(y)) => if y == 0 {
            Err(FaultV::DivByZero)
        } else {
            match x.checked_rem(y) {
                Some(q) => Ok(AtomV::Int(q)),
                None => Err(FaultV::ArithOverflow),
            }
        },
        (AtomV::Int(_), _) => Err(FaultV::TypeMismatch(l, r)),
        _ => Err(FaultV::BadOperand(l)),
    }
}

/// The integer truth value the comparisons push: one for true, zero for false.
pub open spec fn truth(b: bool) -> AtomV {
    if b {
        AtomV::Int(1)
    } else {
        AtomV::Int(0)
    }
}

/// Strictly greater: integers by value, floats by IEEE-754 order.
pub open spec fn atom_gt(l: AtomV, r: AtomV) -> Result<AtomV, FaultV> {
    match (l, r) {
        (AtomV::Int(x), AtomV::Int(y)) => Ok(truth(x > y)),
        (AtomV::Int(_), _) => Err(FaultV::TypeMismatch(l, r)),
        (AtomV::Float(a), AtomV::Float(b)) => Ok(truth(float::lt_bits(b, a))),
        (AtomV::Float(_), _) => Err(FaultV::TypeMismatch(l, r)),
        _ => Err(FaultV::BadOperand(l)),
    }
}

/// Greater or equal: integers by value, floats by IEEE-754 order.
pub open spec fn atom_ge(l: AtomV, r: AtomV) -> Result<AtomV, FaultV> {
    match (l, r) {
        (AtomV::Int(x), AtomV::Int(y)) => Ok(truth(x >= y)),
        (AtomV::Int(_), _) => Err(FaultV::TypeMismatch(l, r)),
        (AtomV::Float(a), AtomV::Float(b)) => Ok(truth(float::le_bits(b, a))),
        (AtomV::Float(_), _) => Err(FaultV::TypeMismatch(l, r)),
        _ => Err(FaultV::BadOperand(l)),
    }
}

/// Strictly less: integers by value, floats by IEEE-754 order.
pub open spec fn atom_lt(l: AtomV, r: AtomV) -> Result<AtomV, FaultV> {
    match (l, r) {
        (AtomV::Int(x), AtomV::Int(y)) => Ok(truth(x < y)),
        (AtomV::Int(_), _) => Err(FaultV::TypeMismatch(l, r)),
        (AtomV::Float(a), AtomV::Float(b)) => Ok(truth(float::lt_bits(a, b))),
        (AtomV::Float(_), _) => Err(FaultV::TypeMismatch(l, r)),
        _ => Err(FaultV::BadOperand(l)),
    }
}

/// Less or equal: integers by value, floats by IEEE-754 order.
pub open spec fn atom_le(l: AtomV, r: AtomV) -> Result<AtomV, FaultV> {
    match (l, r) {
        (AtomV::Int(x), AtomV::Int(y)) => Ok(truth(x <= y)),
        (AtomV::Int(_), _) => Err(FaultV::TypeMismatch(l, r)),
        (AtomV::Float(a), AtomV::Float(b)) => Ok(truth(float::le_bits(a, b))),
        (AtomV::Float(_), _) => Err(FaultV::TypeMismatch(l, r)),
        _ => Err(FaultV::BadOperand(l)),
    }
}

/// Equality: integers and floats by value, and two strings by exact
/// character equality; any other pairing is an error.
pub open spec fn atom_eq(l: AtomV, r: AtomV) -> Result<AtomV, FaultV> {
    match (l, r) {
        (AtomV::Int(x), AtomV::Int(y)) => Ok(truth(x == y)),
        (AtomV::Int(_), _) => Err(FaultV::TypeMismatch(l, r)),
        (AtomV::Float(a), AtomV::Float(b)) => Ok(truth(float::eq_bits(a, b))),
        (AtomV::Float(_), _) => Err(FaultV::TypeMismatch(l, r)),
        (AtomV::Str(x), AtomV::Str(y)) => Ok(truth(x == y)),
        (AtomV::Str(_), _) => Err(FaultV::TypeMismatch(l, r)),
        _ => Err(FaultV::BadOperand(l)),
    }
}

/// Inequality: the negation of [`atom_eq`] on the pairings it accepts.
pub open spec fn atom_ne(l: AtomV, r: AtomV) -> Result<AtomV, FaultV> {
    match (l, r) {
        (AtomV::Int(x), AtomV::Int(y)) => Ok(truth(x != y)),
        (AtomV::Int(_), _) => Err(FaultV::TypeMismatch(l, r)),
        (AtomV::Float(a), AtomV::Float(b)) => Ok(truth(!float::eq_bits(a, b))),
        (AtomV::Float(_), _) => Err(FaultV::TypeMismatch(l, r)),
        (AtomV::Str(x), AtomV::Str(y)) => Ok(truth(x != y)),
        (AtomV::Str(_), _) => Err(FaultV::TypeMismatch(l, r)),
        _ => Err(FaultV::BadOperand(l)),
    }
}

impl Atom {
    /// Addition; the receiver is the left operand.
    pub fn plus(&self, b: Atom) -> (r: Result<Atom, RunError>)
        ensures
            atom_res_v(r) == atom_plus(self@, b@),
    {
        match (self, &b) {
            (Atom::VInt(l), Atom::VInt(rr)) => Ok(Atom::VInt(l.wrapping_add(*rr))),
            (Atom::VInt(_), _) => Err(RunError::TypeMismatch(self.clone(), b)),
            (Atom::VFloat(l), Atom::VFloat(rr)) => Ok(Atom::VFloat(float::add(*l, *rr))),
            (Atom::VFloat(_), _) => Err(RunError::TypeMismatch(self.clone(), b)),
            _ => Err(RunError::BadOperand(self.clone())),
        }
    }

    /// Subtraction; the receiver is the left operand.
    pub fn minus(&self, b: Atom) -> (r: Result<Atom, RunError>)
        ensures
            atom_res_v(r) == atom_minus(self@, b@),
    {
        match (self, &b) {
            (Atom::VInt(l), Atom::VInt(rr)) => Ok(Atom::VInt(l.wrapping_sub(*rr))),
            (Atom::VInt(_), _) => Err(RunError::TypeMismatch(self.clone(), b)),
            (Atom::VFloat(l), Atom::VFloat(rr)) => Ok(Atom::VFloat(float::sub(*l, *rr))),
            (Atom::VFloat(_), _) => Err(RunError::TypeMismatch(self.clone(), b)),
            _ => Err(RunError::BadOperand(self.clone())),
        }
    }

    /// Multiplication; the receiver is the left operand.
    pub fn mult(&self, b: Atom) -> (r: Result<Atom, RunError>)
        ensures
            atom_res_v(r) == atom_mult(self@, b@),
    {
        match (self, &b) {
            (Atom::VInt(l), Atom::VInt(rr)) => Ok(Atom::VInt(l.wrapping_mul(*rr))),
            (Atom::VInt(_), _) => Err(RunError::TypeMismatch(self.clone(), b)),
            (Atom::VFloat(l), Atom::VFloat(rr)) => Ok(Atom::VFloat(float::mul(*l, *rr))),
            (Atom::VFloat(_), _) => Err(RunError::TypeMismatch(self.clone(), b)),
            _ => Err(RunError::BadOperand(self.clone())),
        }
    }

    /// Division; the receiver is the left operand.
    pub fn div(&self, b: Atom) -> (r: Result<Atom, RunError>)
        ensures
            atom_res_v(r) == atom_div(self@, b@),
    {
        match (self, &b) {
            (Atom::VInt(l), Atom::VInt(rr)) => {
                if *rr == 0 {
                    Err(RunError::DivByZero)
                } else {
                    match l.checked_div(*rr) {
                        Some(q) => Ok(Atom::VInt(q)),
                        None => Err(RunError::ArithOverflow),
                    }
                }
            },
            (Atom::VInt(_), _) => Err(RunError::TypeMismatch(self.clone(), b)),
            (Atom::VFloat(l), Atom::VFloat(rr)) => Ok(Atom::VFloat(float::div(*l, *rr))),
            (Atom::VFloat(_), _) => Err(RunError::TypeMismatch(self.clone(), b)),
            _ => Err(RunError::BadOperand(self.clone())),
        }
    }

    /// Remainder; integer-only, the receiver is the left operand.
    pub fn rem(&self, b: Atom) -> (r: Result<Atom, RunError>)
        ensures
            atom_res_v(r) == atom_rem(self@, b@),
    {
        match (self, &b) {
            (Atom::VInt(l), Atom::VInt(rr)) => {
                if *rr == 0 {
                    Err(RunError::DivByZero)
                } else {
                    match l.checked_rem(*rr) {
                        Some(q) => Ok(Atom::VInt(q)),
                        None => Err(RunError::ArithOverflow),
                    }
                }
            },
            (Atom::VInt(_), _) => Err(RunError::TypeMismatch(self.clone(), b)),
            _ => Err(RunError::BadOperand(self.clone())),
        }
    }

    /// Strictly greater; the receiver is the left operand.
    pub fn gt(&self, b: Atom) -> (r: Result<Atom, RunError>)
        ensures
            atom_res_v(r) == atom_gt(self@, b@),
    {
        match (self, &b) {
            (Atom::VInt(l), Atom::VInt(rr)) => Ok(Atom::VInt(if *l > *rr { 1 } else { 0 })),
            (Atom::VInt(_), _) => Err(RunError::TypeMismatch(self.clone(), b)),
            (Atom::VFloat(l), Atom::VFloat(rr)) => Ok(
                Atom::VInt(if float::lt(*rr, *l) { 1 } else { 0 }),
            ),
            (Atom::VFloat(_), _) => Err(RunError::TypeMismatch(self.clone(), b)),
            _ => Err(RunError::BadOperand(self.clone())),
        }
    }

    /// Greater or equal; the receiver is the left operand.
    pub fn ge(&self, b: Atom) -> (r: Result<Atom, RunError>)
        ensures
            atom_res_v(r) == atom_ge(self@, b@),
    {
        match (self, &b) {
            (Atom::VInt(l), Atom::VInt(rr)) => Ok(Atom::VInt(if *l >= *rr { 1 } else { 0 })),
            (Atom::VInt(_), _) => Err(RunError::TypeMismatch(self.clone(), b)),
            (Atom::VFloat(l), Atom::VFloat(rr)) => Ok(
                Atom::VInt(if float::le(*rr, *l) { 1 } else { 0 }),
            ),
            (Atom::VFloat(_), _) => Err(RunError::TypeMismatch(self.clone(), b)),
            _ => Err(RunError::BadOperand(self.clone())),
        }
    }

    /// Strictly less; the receiver is the left operand.
    pub fn lt(&self, b: Atom) -> (r: Result<Atom, RunError>)
        ensures
            atom_res_v(r) == atom_lt(self@, b@),
    {
        match (self, &b) {
            (Atom::VInt(l), Atom::VInt(rr)) => Ok(Atom::VInt(if *l < *rr { 1 } else { 0 })),
            (Atom::VInt(_), _) => Err(RunError::TypeMismatch(self.clone(), b)),
            (Atom::VFloat(l), Atom::VFloat(rr)) => Ok(
                Atom::VInt(if float::lt(*l, *rr) { 1 } else { 0 }),
            ),
            (Atom::VFloat(_), _) => Err(RunError::TypeMismatch(self.clone(), b)),
            _ => Err(RunError::BadOperand(self.clone())),
        }
    }

    /// Less or equal; the receiver is the left operand.
    pub fn le(&self, b: Atom) -> (r: Result<Atom, RunError>)
        ensures
            atom_res_v(r) == atom_le(self@, b@),
    {
        match (self, &b) {
            (Atom::VInt(l), Atom::VInt(rr)) => Ok(Atom::VInt(if *l <= *rr { 1 } else { 0 })),
            (Atom::VInt(_), _) => Err(RunError::TypeMismatch(self.clone(), b)),
            (Atom::VFloat(l), Atom::VFloat(rr)) => Ok(
                Atom::VInt(if float::le(*l, *rr) { 1 } else { 0 }),
            ),
            (Atom::VFloat(_), _) => Err(RunError::TypeMismatch(self.clone(), b)),
            _ => Err(RunError::BadOperand(self.clone())),
        }
    }

    /// Equality test; accepts two integers, two floats, or two strings.
    pub fn eq(&self, b: Atom) -> (r: Result<Atom, RunError>)
        ensures
            atom_res_v(r) == atom_eq(self@, b@),
    {
        match (self, &b) {
            (Atom::VInt(l), Atom::VInt(rr)) => Ok(Atom::VInt(if *l == *rr { 1 } else { 0 })),
            (Atom::VInt(_), _) => Err(RunError::TypeMismatch(self.clone(), b)),
            (Atom::VFloat(l), Atom::VFloat(rr)) => Ok(
                Atom::VInt(if float::eq(*l, *rr) { 1 } else { 0 }),
            ),
            (Atom::VFloat(_), _) => Err(RunError::TypeMismatch(self.clone(), b)),
            (Atom::VString(l), Atom::VString(rr)) => Ok(
                Atom::VInt(if str_eq(l.as_str(), rr.as_str()) { 1 } else { 0 }),
            ),
            (Atom::VString(_), _) => Err(RunError::TypeMismatch(self.clone(), b)),
            _ => Err(RunError::BadOperand(self.clone())),
        }
    }

    /// Inequality test; accepts the same pairings as [`Atom::eq`].
    pub fn ne(&self, b: Atom) -> (r: Result<Atom, RunError>)
        ensures
            atom_res_v(r) == atom_ne(self@, b@),
    {
        match (self, &b) {
            (Atom::VInt(l), Atom::VInt(rr)) => Ok(Atom::VInt(if *l != *rr { 1 } else { 0 })),
            (Atom::VInt(_), _) => Err(RunError::TypeMismatch(self.clone(), b)),
            (Atom::VFloat(l), Atom::VFloat(rr)) => Ok(
                Atom::VInt(if float::eq(*l, *rr) { 0 } else { 1 }),
            ),
            (Atom::VFloat(_), _) => Err(RunError::TypeMismatch(self.clone(), b)),
            (Atom::VString(l), Atom::VString(rr)) => Ok(
                Atom::VInt(if str_eq(l.as_str(), rr.as_str()) { 0 } else { 1 }),
            ),
            (Atom::VString(_), _) => Err(RunError::TypeMismatch(self.clone(), b)),
            _ => Err(RunError::BadOperand(self.clone())),
        }
    }
}

} // verus!
