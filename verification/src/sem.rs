//! The execution semantics, stated mathematically: one state holds the
//! operand stack, the heap, the input still to be read and the output written
//! so far; `sim_exec` runs one resolved token vector over it with an explicit
//! program counter and a step budget, and `sim_mains` runs every function
//! named `main`, in declaration order, as the whole program's meaning.

use vstd::prelude::*;

use crate::atom::AtomV;
use crate::atom::atom_div;
use crate::atom::atom_eq;
use crate::atom::atom_ge;
use crate::atom::atom_gt;
use crate::atom::atom_le;
use crate::atom::atom_lt;
use crate::atom::atom_minus;
use crate::atom::atom_mult;
use crate::atom::atom_ne;
use crate::atom::atom_plus;
use crate::atom::atom_rem;
use crate::errors::FaultV;
use crate::float;
use crate::ir::DeFunV;
use crate::ir::ExecV;
use crate::numbers::dec_int;
use crate::numbers::parse_i32_text;
use crate::scanner::TokenV;

verus! {

broadcast use vstd::seq::group_seq_axioms, vstd::seq_lib::group_seq_lib_default;

/// One machine state: the operand stack (its end is the top), the heap, the
/// bytes still to be read from the input, and the bytes written so far.
pub struct StV {
    pub stack: Seq<AtomV>,
    pub heap: Seq<AtomV>,
    pub ins: Seq<u8>,
    pub out: Seq<u8>,
}

/// What a run yields: normal completion with the final state and the unspent
/// budget, a fault, or an exhausted budget.
pub enum SimRes {
    Done { st: StV, fuel: nat },
    Fail(FaultV),
    NoFuel,
}

/// Whether the byte separates input tokens for the integer-reading builtin:
/// tab, line feed, carriage return or space.
pub open spec fn ws_byte(b: u8) -> bool {
    b == 9 || b == 10 || b == 13 || b == 32
}

/// The input with its leading whitespace removed.
pub open spec fn skip_ws(ins: Seq<u8>) -> Seq<u8>
    decreases ins.len(),
{
    if ins.len() > 0 && ws_byte(ins[0]) {
        skip_ws(ins.drop_first())
    } else {
        ins
    }
}

/// The length of the leading whitespace-free run.
pub open spec fn tok_len(ins: Seq<u8>) -> int
    decreases ins.len(),
{
    if ins.len() == 0 {
        0
    } else if ws_byte(ins[0]) {
        0
    } else {
        1 + tok_len(ins.drop_first())
    }
}

/// The characters a byte token denotes, byte for byte.
pub open spec fn bytes_chars(s: Seq<u8>) -> Seq<char> {
    s.map(|i: int, b: u8| b as char)
}

/// Reading one integer from the input: skip leading whitespace, take the run
/// up to the next whitespace (consuming that terminator), and parse it as a
/// 32-bit decimal integer. Malformed or exhausted input is an error carrying
/// the offending token.
pub open spec fn read_int_sem(ins: Seq<u8>) -> Result<(i32, Seq<u8>), Seq<u8>> {
    let rest0 = skip_ws(ins);
    let n = tok_len(rest0);
    let tok = rest0.take(n);
    let after = if n < rest0.len() {
        rest0.skip(n + 1)
    } else {
        rest0.skip(n)
    };
    match parse_i32_text(bytes_chars(tok)) {
        Some(v) => Ok((v, after)),
        None => Err(tok),
    }
}

/// Follows heap references until a plain value is reached. The budget is the
/// heap length: a longer chain must revisit a slot, so it can never resolve.
pub open spec fn deref_heap(heap: Seq<AtomV>, a: AtomV, fl: nat) -> Result<AtomV, FaultV>
    decreases fl,
{
    match a {
        AtomV::Ref(r) => if r >= heap.len() {
            Err(FaultV::HeapBounds(r))
        } else if fl == 0 {
            Err(FaultV::CircularRef(r))
        } else {
            deref_heap(heap, heap[r as int], (fl - 1) as nat)
        },
        _ => Ok(a),
    }
}

/// The textual form of a plain value: integers and floats in decimal, strings
/// verbatim (UTF-8), null as the literal text `Null`.
pub open spec fn text_of(a: AtomV) -> Seq<u8> {
    match a {
        AtomV::Int(v) => dec_int(v as int),
        AtomV::Float(b) => float::text_of_bits(b),
        AtomV::Str(s) => vstd::utf8::encode_utf8(s),
        AtomV::Null => seq![78u8, 117u8, 108u8, 108u8],
        AtomV::Ref(_) => Seq::empty(),
    }
}

/// The print builtin: pop one value, follow references, append its text to
/// the output, and a line break after it where `nl` holds.
pub open spec fn print_sem(st: StV, nl: bool) -> Result<StV, FaultV> {
    if st.stack.len() == 0 {
        Err(FaultV::StackEmpty)
    } else {
        match deref_heap(st.heap, st.stack.last(), st.heap.len() as nat) {
            Ok(v) => Ok(
                StV {
                    stack: st.stack.drop_last(),
                    heap: st.heap,
                    ins: st.ins,
                    out: st.out + text_of(v) + (if nl {
                        seq![10u8]
                    } else {
                        Seq::<u8>::empty()
                    }),
                },
            ),
            Err(f) => Err(f),
        }
    }
}

/// The heap extended with null up to (and including) slot `i`.
pub open spec fn heap_grown(heap: Seq<AtomV>, i: int) -> Seq<AtomV> {
    if i < heap.len() {
        heap
    } else {
        heap + Seq::new((i + 1 - heap.len()) as nat, |k: int| AtomV::Null)
    }
}

/// The first definition with the given name at or after position `i`.
pub open spec fn find_def(defs: Seq<DeFunV>, name: Seq<char>, i: int) -> Option<int>
    decreases defs.len() - i,
{
    if i < 0 || i >= defs.len() {
        None
    } else if defs[i].name == name {
        Some(i)
    } else {
        find_def(defs, name, i + 1)
    }
}

/// One two-operand instruction: the first pop is the left operand, the second
/// the right; the result is pushed in their place.
pub open spec fn binop_sem(st: StV, op: spec_fn(AtomV, AtomV) -> Result<AtomV, FaultV>) -> Result<
    StV,
    FaultV,
> {
    if st.stack.len() < 2 {
        Err(FaultV::StackEmpty)
    } else {
        let l = st.stack.last();
        let r = st.stack.drop_last().last();
        match op(l, r) {
            Ok(v) => Ok(
                StV {
                    stack: st.stack.drop_last().drop_last().push(v),
                    heap: st.heap,
                    ins: st.ins,
                    out: st.out,
                },
            ),
            Err(f) => Err(f),
        }
    }
}

/// Runs one resolved token vector from program counter `pc`, charging one
/// unit of budget per executed instruction. A jump moves the counter onto the
/// label's own token. A call runs builtins directly and otherwise the first
/// table entry with the called name, against the same state.
pub open spec fn sim_exec(defs: Seq<DeFunV>, code: ExecV, pc: int, st: StV, fuel: nat) -> SimRes
    decreases fuel,
{
    if pc < 0 || pc >= code.tokens.len() {
        SimRes::Done { st, fuel }
    } else if fuel == 0 {
        SimRes::NoFuel
    } else {
        let f2 = (fuel - 1) as nat;
        match code.tokens[pc] {
            TokenV::Pushi(v) => sim_exec(
                defs,
                code,
                pc + 1,
                StV { stack: st.stack.push(AtomV::Int(v)), heap: st.heap, ins: st.ins, out: st.out },
                f2,
            ),
            TokenV::Pushf(b) => sim_exec(
                defs,
                code,
                pc + 1,
                StV {
                    stack: st.stack.push(AtomV::Float(b)),
                    heap: st.heap,
                    ins: st.ins,
                    out: st.out,
                },
                f2,
            ),
            TokenV::Pop => if st.stack.len() == 0 {
                SimRes::Fail(FaultV::StackEmpty)
            } else {
                sim_exec(
                    defs,
                    code,
                    pc + 1,
                    StV { stack: st.stack.drop_last(), heap: st.heap, ins: st.ins, out: st.out },
                    f2,
                )
            },
            TokenV::Dup => if st.stack.len() == 0 {
                SimRes::Fail(FaultV::StackEmpty)
            } else {
                sim_exec(
                    defs,
                    code,
                    pc + 1,
                    StV {
                        stack: st.stack.push(st.stack.last()),
                        heap: st.heap,
                        ins: st.ins,
                        out: st.out,
                    },
                    f2,
                )
            },
            TokenV::Store(i) => if st.stack.len() == 0 {
                SimRes::Fail(FaultV::StackEmpty)
            } else {
                sim_exec(
                    defs,
                    code,
                    pc + 1,
                    StV {
                        stack: st.stack.drop_last(),
                        heap: heap_grown(st.heap, i as int).update(i as int, st.stack.last()),
                        ins: st.ins,
                        out: st.out,
                    },
                    f2,
                )
            },
            TokenV::Stores(i, s) => sim_exec(
                defs,
                code,
                pc + 1,
                StV {
                    stack: st.stack,
                    heap: heap_grown(st.heap, i as int).update(i as int, AtomV::Str(s)),
                    ins: st.ins,
                    out: st.out,
                },
                f2,
            ),
            TokenV::Load(i) => if i >= st.heap.len() {
                SimRes::Fail(FaultV::HeapBounds(i))
            } else {
                sim_exec(
                    defs,
                    code,
                    pc + 1,
                    StV {
                        stack: st.stack.push(st.heap[i as int]),
                        heap: st.heap,
                        ins: st.ins,
                        out: st.out,
                    },
                    f2,
                )
            },
            TokenV::Add => match binop_sem(st, |l, r| atom_plus(l, r)) {
                Ok(st2) => sim_exec(defs, code, pc + 1, st2, f2),
                Err(f) => SimRes::Fail(f),
            },
            TokenV::Sub => match binop_sem(st, |l, r| atom_minus(l, r)) {
                Ok(st2) => sim_exec(defs, code, pc + 1, st2, f2),
                Err(f) => SimRes::Fail(f),
            },
            TokenV::Mul => match binop_sem(st, |l, r| atom_mult(l, r)) {
                Ok(st2) => sim_exec(defs, code, pc + 1, st2, f2),
                Err(f) => SimRes::Fail(f),
            },
            TokenV::Div => match binop_sem(st, |l, r| atom_div(l, r)) {
                Ok(st2) => sim_exec(defs, code, pc + 1, st2, f2),
                Err(f) => SimRes::Fail(f),
            },
            TokenV::Rem => match binop_sem(st, |l, r| atom_rem(l, r)) {
                Ok(st2) => sim_exec(defs, code, pc + 1, st2, f2),
                Err(f) => SimRes::Fail(f),
            },
            TokenV::Eq => match binop_sem(st, |l, r| atom_eq(l, r)) {
                Ok(st2) => sim_exec(defs, code, pc + 1, st2, f2),
                Err(f) => SimRes::Fail(f),
            },
            TokenV::Ne => match binop_sem(st, |l, r| atom_ne(l, r)) {
                Ok(st2) => sim_exec(defs, code, pc + 1, st2, f2),
                Err(f) => SimRes::Fail(f),
            },
            TokenV::Lt => match binop_sem(st, |l, r| atom_lt(l, r)) {
                Ok(st2) => sim_exec(defs, code, pc + 1, st2, f2),
                Err(f) => SimRes::Fail(f),
            },
            TokenV::Le => match binop_sem(st, |l, r| atom_le(l, r)) {
                Ok(st2) => sim_exec(defs, code, pc + 1, st2, f2),
                Err(f) => SimRes::Fail(f),
            },
            TokenV::Gt => match binop_sem(st, |l, r| atom_gt(l, r)) {
                Ok(st2) => sim_exec(defs, code, pc + 1, st2, f2),
                Err(f) => SimRes::Fail(f),
            },
            TokenV::Ge => match binop_sem(st, |l, r| atom_ge(l, r)) {
                Ok(st2) => sim_exec(defs, code, pc + 1, st2, f2),
                Err(f) => SimRes::Fail(f),
            },
            TokenV::Label(_) => sim_exec(defs, code, pc + 1, st, f2),
            TokenV::Goto(l) => if code.labels.contains_key(l) {
                sim_exec(defs, code, code.labels[l] as int, st, f2)
            } else {
                SimRes::Fail(FaultV::UnknownLabel(l))
            },
            TokenV::Branch(l) => if !code.labels.contains_key(l) {
                SimRes::Fail(FaultV::UnknownLabel(l))
            } else if st.stack.len() == 0 {
                SimRes::Fail(FaultV::StackEmpty)
            } else {
                match st.stack.last() {
                    AtomV::Int(c) => sim_exec(
                        defs,
                        code,
                        if c != 0 {
                            code.labels[l] as int
                        } else {
                            pc + 1
                        },
                        StV {
                            stack: st.stack.drop_last(),
                            heap: st.heap,
                            ins: st.ins,
                            out: st.out,
                        },
                        f2,
                    ),
                    a => SimRes::Fail(FaultV::NotInt(a)),
                }
            },
            TokenV::Call(name) => if name == "print"@ {
                match print_sem(st, false) {
                    Ok(st2) => sim_exec(defs, code, pc + 1, st2, f2),
                    Err(f) => SimRes::Fail(f),
                }
            } else if name == "println"@ {
                match print_sem(st, true) {
                    Ok(st2) => sim_exec(defs, code, pc + 1, st2, f2),
                    Err(f) => SimRes::Fail(f),
                }
            } else if name == "readint"@ {
                match read_int_sem(st.ins) {
                    Ok((v, rest)) => sim_exec(
                        defs,
                        code,
                        pc + 1,
                        StV {
                            stack: st.stack.push(AtomV::Int(v)),
                            heap: st.heap,
                            ins: rest,
                            out: st.out,
                        },
                        f2,
                    ),
                    Err(tok) => SimRes::Fail(FaultV::BadInput(tok)),
                }
            } else {
                match find_def(defs, name, 0) {
                    Some(k) => match sim_exec(defs, defs[k].body, 0, st, f2) {
                        SimRes::Done { st: st2, fuel: fl } => {
                            let flc = if fl <= f2 {
                                fl
                            } else {
                                f2
                            };
                            sim_exec(defs, code, pc + 1, st2, flc)
                        },
                        r => r,
                    },
                    None => SimRes::Fail(FaultV::FnNotFound(name)),
                }
            },
            _ => SimRes::Fail(FaultV::BadToken),
        }
    }
}

/// Runs every function named `main`, in declaration order, threading the one
/// machine state through them; a program without `main` is a no-op.
pub open spec fn sim_mains(defs: Seq<DeFunV>, i: int, st: StV, fuel: nat) -> SimRes
    decreases defs.len() - i,
{
    if i < 0 || i >= defs.len() {
        SimRes::Done { st, fuel }
    } else if defs[i].name == "main"@ {
        match sim_exec(defs, defs[i].body, 0, st, fuel) {
            SimRes::Done { st: st2, fuel: f2 } => sim_mains(defs, i + 1, st2, f2),
            r => r,
        }
    } else {
        sim_mains(defs, i + 1, st, fuel)
    }
}

/// In a function body whose label map sends `n` to token index `k`, a
/// `goto n` anywhere in that body transfers control so that the next
/// executed token is exactly token `k`.
pub proof fn law_goto_transfers(
    defs: Seq<DeFunV>,
    code: ExecV,
    pc: int,
    st: StV,
    fuel: nat,
    n: usize,
)
    requires
        0 <= pc < code.tokens.len(),
        code.tokens[pc] == TokenV::Goto(n),
        code.labels.contains_key(n),
        fuel > 0,
    ensures
        sim_exec(defs, code, pc, st, fuel) == sim_exec(
            defs,
            code,
            code.labels[n] as int,
            st,
            (fuel - 1) as nat,
        ),
{
}

/// Branch polarity: with an integer on top of the stack, `branch n` pops it
/// and jumps exactly when it is nonzero; zero falls through to the next
/// token. Either way the popped integer is gone.
pub proof fn law_branch_polarity(
    defs: Seq<DeFunV>,
    code: ExecV,
    pc: int,
    st: StV,
    fuel: nat,
    n: usize,
    c: i32,
)
    requires
        0 <= pc < code.tokens.len(),
        code.tokens[pc] == TokenV::Branch(n),
        code.labels.contains_key(n),
        st.stack.len() > 0,
        st.stack.last() == AtomV::Int(c),
        fuel > 0,
    ensures
        c == 0 ==> sim_exec(defs, code, pc, st, fuel) == sim_exec(
            defs,
            code,
            pc + 1,
            StV { stack: st.stack.drop_last(), heap: st.heap, ins: st.ins, out: st.out },
            (fuel - 1) as nat,
        ),
        c != 0 ==> sim_exec(defs, code, pc, st, fuel) == sim_exec(
            defs,
            code,
            code.labels[n] as int,
            StV { stack: st.stack.drop_last(), heap: st.heap, ins: st.ins, out: st.out },
            (fuel - 1) as nat,
        ),
{
}

/// Call resolution is first-match: where the table holds the called name at
/// all, the least index with that name is invoked, every time; otherwise no
/// index holds it.
pub proof fn law_first_match(defs: Seq<DeFunV>, name: Seq<char>)
    ensures
        match find_def(defs, name, 0) {
            Some(k) => 0 <= k < defs.len() && defs[k].name == name && (forall|j: int|
                0 <= j < k ==> defs[j].name != name),
            None => forall|j: int| 0 <= j < defs.len() ==> defs[j].name != name,
        },
{
    lemma_find_def_from(defs, name, 0);
}

proof fn lemma_find_def_from(defs: Seq<DeFunV>, name: Seq<char>, i: int)
    requires
        0 <= i,
    ensures
        match find_def(defs, name, i) {
            Some(k) => i <= k < defs.len() && defs[k].name == name && (forall|j: int|
                i <= j < k ==> defs[j].name != name),
            None => forall|j: int| i <= j < defs.len() ==> defs[j].name != name,
        },
    decreases defs.len() - i,
{
    if i < defs.len() && defs[i].name != name {
        lemma_find_def_from(defs, name, i + 1);
    }
}

/// A call to a non-builtin name runs the first table entry carrying that
/// name against the same state, resuming after it; a name the table lacks
/// faults, naming the function.
pub proof fn law_call_dispatch(
    defs: Seq<DeFunV>,
    code: ExecV,
    pc: int,
    st: StV,
    fuel: nat,
    name: Seq<char>,
)
    requires
        0 <= pc < code.tokens.len(),
        code.tokens[pc] == TokenV::Call(name),
        name != "print"@,
        name != "println"@,
        name != "readint"@,
        fuel > 0,
    ensures
        match find_def(defs, name, 0) {
            Some(k) => {
                &&& defs[k].name == name
                &&& (forall|j: int| 0 <= j < k ==> defs[j].name != name)
                &&& sim_exec(defs, code, pc, st, fuel) == (match sim_exec(
                    defs,
                    defs[k].body,
                    0,
                    st,
                    (fuel - 1) as nat,
                ) {
                    SimRes::Done { st: st2, fuel: fl } => sim_exec(defs, code, pc + 1, st2, fl),
                    r => r,
                })
            },
            None => sim_exec(defs, code, pc, st, fuel) == SimRes::Fail(FaultV::FnNotFound(name)),
        },
{
    law_first_match(defs, name);
    match find_def(defs, name, 0) {
        Some(k) => {
            lemma_sim_fuel(defs, defs[k].body, 0, st, (fuel - 1) as nat);
        },
        None => {},
    }
}

/// Following references fails only on a missing slot or a cycle.
pub proof fn lemma_deref_fault_kinds(heap: Seq<AtomV>, a: AtomV, fl: nat)
    ensures
        match deref_heap(heap, a, fl) {
            Err(f) => f is HeapBounds || f is CircularRef,
            Ok(_) => true,
        },
    decreases fl,
{
    match a {
        AtomV::Ref(r) => {
            if r < heap.len() && fl > 0 {
                lemma_deref_fault_kinds(heap, heap[r as int], (fl - 1) as nat);
            }
        },
        _ => {},
    }
}

/// A run never returns more budget than it was given.
pub proof fn lemma_sim_fuel(defs: Seq<DeFunV>, code: ExecV, pc: int, st: StV, fuel: nat)
    ensures
        match sim_exec(defs, code, pc, st, fuel) {
            SimRes::Done { st: st2, fuel: fl } => fl <= fuel,
            _ => true,
        },
    decreases fuel, 2int,
{
    if 0 <= pc < code.tokens.len() && fuel > 0 {
        let f2 = (fuel - 1) as nat;
        match code.tokens[pc] {
            TokenV::Call(name) => {
                if name == "print"@ || name == "println"@ || name == "readint"@ {
                    match print_sem(st, false) {
                        Ok(st2) => lemma_sim_fuel(defs, code, pc + 1, st2, f2),
                        Err(_) => {},
                    }
                    match print_sem(st, true) {
                        Ok(st2) => lemma_sim_fuel(defs, code, pc + 1, st2, f2),
                        Err(_) => {},
                    }
                    match read_int_sem(st.ins) {
                        Ok((v, rest)) => lemma_sim_fuel(
                            defs,
                            code,
                            pc + 1,
                            StV {
                                stack: st.stack.push(AtomV::Int(v)),
                                heap: st.heap,
                                ins: rest,
                                out: st.out,
                            },
                            f2,
                        ),
                        Err(_) => {},
                    }
                } else {
                    match find_def(defs, name, 0) {
                        Some(k) => {
                            lemma_sim_fuel(defs, defs[k].body, 0, st, f2);
                            match sim_exec(defs, defs[k].body, 0, st, f2) {
                                SimRes::Done { st: st2, fuel: fl } => {
                                    let flc = if fl <= f2 {
                                        fl
                                    } else {
                                        f2
                                    };
                                    lemma_sim_fuel(defs, code, pc + 1, st2, flc);
                                },
                                _ => {},
                            }
                        },
                        None => {},
                    }
                }
            },
            _ => {
                lemma_sim_fuel_step(defs, code, pc, st, fuel);
            },
        }
    }
}

/// Helper for the non-call instructions: each one recurses with one unit of
/// budget spent.
proof fn lemma_sim_fuel_step(defs: Seq<DeFunV>, code: ExecV, pc: int, st: StV, fuel: nat)
    requires
        0 <= pc < code.tokens.len(),
        fuel > 0,
        !(code.tokens[pc] is Call),
    ensures
        match sim_exec(defs, code, pc, st, fuel) {
            SimRes::Done { st: st2, fuel: fl } => fl <= fuel,
            _ => true,
        },
    decreases fuel, 1int,
{
    let f2 = (fuel - 1) as nat;
    match code.tokens[pc] {
        TokenV::Pushi(v) => lemma_sim_fuel(
            defs,
            code,
            pc + 1,
            StV { stack: st.stack.push(AtomV::Int(v)), heap: st.heap, ins: st.ins, out: st.out },
            f2,
        ),
        TokenV::Pushf(b) => lemma_sim_fuel(
            defs,
            code,
            pc + 1,
            StV { stack: st.stack.push(AtomV::Float(b)), heap: st.heap, ins: st.ins, out: st.out },
            f2,
        ),
        TokenV::Pop => if st.stack.len() > 0 {
            lemma_sim_fuel(
                defs,
                code,
                pc + 1,
                StV { stack: st.stack.drop_last(), heap: st.heap, ins: st.ins, out: st.out },
                f2,
            );
        },
        TokenV::Dup => if st.stack.len() > 0 {
            lemma_sim_fuel(
                defs,
                code,
                pc + 1,
                StV {
                    stack: st.stack.push(st.stack.last()),
                    heap: st.heap,
                    ins: st.ins,
                    out: st.out,
                },
                f2,
            );
        },
        TokenV::Store(i) => if st.stack.len() > 0 {
            lemma_sim_fuel(
                defs,
                code,
                pc + 1,
                StV {
                    stack: st.stack.drop_last(),
                    heap: heap_grown(st.heap, i as int).update(i as int, st.stack.last()),
                    ins: st.ins,
                    out: st.out,
                },
                f2,
            );
        },
        TokenV::Stores(i, s) => lemma_sim_fuel(
            defs,
            code,
            pc + 1,
            StV {
                stack: st.stack,
                heap: heap_grown(st.heap, i as int).update(i as int, AtomV::Str(s)),
                ins: st.ins,
                out: st.out,
            },
            f2,
        ),
        TokenV::Load(i) => if i < st.heap.len() {
            lemma_sim_fuel(
                defs,
                code,
                pc + 1,
                StV {
                    stack: st.stack.push(st.heap[i as int]),
                    heap: st.heap,
                    ins: st.ins,
                    out: st.out,
                },
                f2,
            );
        },
        TokenV::Add => lemma_sim_fuel_binop(defs, code, pc, st, fuel, |l, r| atom_plus(l, r)),
        TokenV::Sub => lemma_sim_fuel_binop(defs, code, pc, st, fuel, |l, r| atom_minus(l, r)),
        TokenV::Mul => lemma_sim_fuel_binop(defs, code, pc, st, fuel, |l, r| atom_mult(l, r)),
        TokenV::Div => lemma_sim_fuel_binop(defs, code, pc, st, fuel, |l, r| atom_div(l, r)),
        TokenV::Rem => lemma_sim_fuel_binop(defs, code, pc, st, fuel, |l, r| atom_rem(l, r)),
        TokenV::Eq => lemma_sim_fuel_binop(defs, code, pc, st, fuel, |l, r| atom_eq(l, r)),
        TokenV::Ne => lemma_sim_fuel_binop(defs, code, pc, st, fuel, |l, r| atom_ne(l, r)),
        TokenV::Lt => lemma_sim_fuel_binop(defs, code, pc, st, fuel, |l, r| atom_lt(l, r)),
        TokenV::Le => lemma_sim_fuel_binop(defs, code, pc, st, fuel, |l, r| atom_le(l, r)),
        TokenV::Gt => lemma_sim_fuel_binop(defs, code, pc, st, fuel, |l, r| atom_gt(l, r)),
        TokenV::Ge => lemma_sim_fuel_binop(defs, code, pc, st, fuel, |l, r| atom_ge(l, r)),
        TokenV::Label(_) => lemma_sim_fuel(defs, code, pc + 1, st, f2),
        TokenV::Goto(l) => if code.labels.contains_key(l) {
            lemma_sim_fuel(defs, code, code.labels[l] as int, st, f2);
        },
        TokenV::Branch(l) => if code.labels.contains_key(l) && st.stack.len() > 0 {
            match st.stack.last() {
                AtomV::Int(c) => {
                    lemma_sim_fuel(
                        defs,
                        code,
                        if c != 0 {
                            code.labels[l] as int
                        } else {
                            pc + 1
                        },
                        StV {
                            stack: st.stack.drop_last(),
                            heap: st.heap,
                            ins: st.ins,
                            out: st.out,
                        },
                        f2,
                    );
                },
                _ => {},
            }
        },
        _ => {},
    }
}

/// Helper for the two-operand instructions.
proof fn lemma_sim_fuel_binop(
    defs: Seq<DeFunV>,
    code: ExecV,
    pc: int,
    st: StV,
    fuel: nat,
    op: spec_fn(AtomV, AtomV) -> Result<AtomV, FaultV>,
)
    requires
        0 <= pc < code.tokens.len(),
        fuel > 0,
    ensures
        match (match binop_sem(st, op) {
            Ok(st2) => sim_exec(defs, code, pc + 1, st2, (fuel - 1) as nat),
            Err(f) => SimRes::Fail(f),
        }) {
            SimRes::Done { st: st2, fuel: fl } => fl <= fuel,
            _ => true,
        },
    decreases fuel, 0int,
{
    match binop_sem(st, op) {
        Ok(st2) => lemma_sim_fuel(defs, code, pc + 1, st2, (fuel - 1) as nat),
        Err(_) => {},
    }
}

} // verus!

