//! The interpreter: an explicit program counter walks one resolved token
//! vector, dispatching opcodes against the shared memory and port, with a
//! step budget so that every run ends. Calls resolve builtins first, then
//! the first table entry with the called name, by recursive invocation that
//! threads the one memory by exclusive ownership.

use vstd::prelude::*;

use crate::atom::Atom;
use crate::atom::AtomV;
use crate::atom::Memory;
use crate::atom::atoms_v;
use crate::chars::str_eq;
use crate::errors::RunError;
use crate::io::Io;
use crate::ir::DeFun;
use crate::ir::Exec;
use crate::ir::Program;
use crate::runtime;
use crate::scanner::Token;
use crate::sem::SimRes;
use crate::sem::StV;
use crate::sem::find_def;
use crate::sem::heap_grown;
use crate::sem::lemma_deref_fault_kinds;
use crate::sem::lemma_sim_fuel;
use crate::sem::print_sem;
use crate::sem::sim_exec;
use crate::sem::sim_mains;

verus! {

broadcast use
    vstd::seq::group_seq_axioms,
    vstd::seq_lib::group_seq_lib_default,
    vstd::std_specs::hash::group_hash_axioms,
    crate::atom::lemma_atoms_v_push,
    crate::atom::lemma_atoms_v_drop_last,
    crate::atom::lemma_atoms_v_subrange_drop,
    crate::atom::lemma_atoms_v_update;

/// The machine state a memory and a port denote.
pub open spec fn st_of(m: Memory, io: Io) -> StV {
    StV { stack: atoms_v(m.stack@), heap: atoms_v(m.heap@), ins: io.ins(), out: io.out@ }
}

impl Exec {
    /// Runs this token vector from its start against the given memory and
    /// port, spending at most `fuel` instruction steps; the result is
    /// exactly what the semantics says, and the unspent budget comes back
    /// with the memory.
    #[verifier::rlimit(100)]
    pub fn simulate(&self, mem: Memory, prog: &Program, io: &mut Io, fuel: u64) -> (r: Result<
        (Memory, u64),
        RunError,
    >)
        requires
            old(io).wf(),
        ensures
            final(io).wf(),
            final(io).echo == old(io).echo,
            final(io).input == old(io).input,
            match r {
                Ok(p) => sim_exec(prog@.defs, self@, 0, st_of(mem, *old(io)), fuel as nat)
                    == (SimRes::Done { st: st_of(p.0, *final(io)), fuel: p.1 as nat }),
                Err(e) => match e {
                    RunError::OutOfFuel => sim_exec(
                        prog@.defs,
                        self@,
                        0,
                        st_of(mem, *old(io)),
                        fuel as nat,
                    ) == SimRes::NoFuel,
                    _ => sim_exec(prog@.defs, self@, 0, st_of(mem, *old(io)), fuel as nat)
                        == SimRes::Fail(e@),
                },
            },
        decreases fuel, 0int,
    {
        let ghost defs = prog@.defs;
        let ghost code = self@;
        let ghost st0 = st_of(mem, *old(io));
        let mut m = mem;
        let mut pc: usize = 0;
        let mut fl: u64 = fuel;
        loop
            invariant
                io.wf(),
                io.echo == old(io).echo,
                io.input == old(io).input,
                fl <= fuel,
                defs == prog@.defs,
                code == self@,
                st0 == st_of(mem, *old(io)),
                sim_exec(defs, code, 0, st0, fuel as nat) == sim_exec(
                    defs,
                    code,
                    pc as int,
                    st_of(m, *io),
                    fl as nat,
                ),
            ensures
                io.wf(),
                io.echo == old(io).echo,
                io.input == old(io).input,
                sim_exec(defs, code, 0, st0, fuel as nat) == (SimRes::Done {
                    st: st_of(m, *io),
                    fuel: fl as nat,
                }),
            decreases fl,
        {
            if pc >= self.tokens.len() {
                proof {
                    assert(pc as int >= code.tokens.len());
                }
                break;
            }
            if fl == 0 {
                proof {
                    assert(sim_exec(defs, code, pc as int, st_of(m, *io), 0nat)
                        == SimRes::NoFuel);
                }
                return Err(RunError::OutOfFuel);
            }
            let ghost pst = st_of(m, *io);
            let ghost ppc = pc as int;
            let ghost pfl = fl as nat;
            fl = fl - 1;
            let t = &self.tokens[pc];
            proof {
                assert(code.tokens[ppc] == self.tokens@[ppc]@);
            }
            match t {
                Token::Pushi(v) => {
                    m.stack.push(Atom::VInt(*v));
                    pc = pc + 1;
                    proof {
                        assert(st_of(m, *io) == (StV {
                            stack: pst.stack.push(AtomV::Int(*v)),
                            heap: pst.heap,
                            ins: pst.ins,
                            out: pst.out,
                        }));
                    }
                },
                Token::Pushf(b) => {
                    m.stack.push(Atom::VFloat(*b));
                    pc = pc + 1;
                    proof {
                        assert(st_of(m, *io) == (StV {
                            stack: pst.stack.push(AtomV::Float(*b)),
                            heap: pst.heap,
                            ins: pst.ins,
                            out: pst.out,
                        }));
                    }
                },
                Token::Pop => {
                    if m.stack.len() == 0 {
                        return Err(RunError::StackEmpty);
                    }
                    m.stack.pop();
                    pc = pc + 1;
                    proof {
                        assert(st_of(m, *io) == (StV {
                            stack: pst.stack.drop_last(),
                            heap: pst.heap,
                            ins: pst.ins,
                            out: pst.out,
                        }));
                    }
                },
                Token::Dup => {
                    if m.stack.len() == 0 {
                        return Err(RunError::StackEmpty);
                    }
                    let c = m.stack[m.stack.len() - 1].clone();
                    m.stack.push(c);
                    pc = pc + 1;
                    proof {
                        assert(st_of(m, *io) == (StV {
                            stack: pst.stack.push(pst.stack.last()),
                            heap: pst.heap,
                            ins: pst.ins,
                            out: pst.out,
                        }));
                    }
                },
                Token::Store(iloc) => {
                    if m.stack.len() == 0 {
                        return Err(RunError::StackEmpty);
                    }
                    let il = *iloc;
                    let ghost h0 = atoms_v(m.heap@);
                    let ghost stk0 = m.stack@;
                    let ghost io_at = *io;
                    while il >= m.heap.len()
                        invariant
                            m.stack@ == stk0,
                            *io == io_at,
                            heap_grown(h0, il as int) == heap_grown(atoms_v(m.heap@), il as int),
                            h0.len() <= atoms_v(m.heap@).len(),
                        decreases il + 1 - m.heap@.len(),
                    {
                        let ghost hprev = atoms_v(m.heap@);
                        m.heap.push(Atom::Null);
                        proof {
                            assert(heap_grown(hprev, il as int) =~= heap_grown(
                                atoms_v(m.heap@),
                                il as int,
                            ));
                        }
                    }
                    proof {
                        assert(heap_grown(atoms_v(m.heap@), il as int) == atoms_v(m.heap@));
                        assert(atoms_v(m.heap@) == heap_grown(h0, il as int));
                    }
                    let v = m.stack.pop().unwrap();
                    m.heap.set(il, v);
                    pc = pc + 1;
                    proof {
                        assert(st_of(m, *io) == (StV {
                            stack: pst.stack.drop_last(),
                            heap: heap_grown(pst.heap, il as int).update(
                                il as int,
                                pst.stack.last(),
                            ),
                            ins: pst.ins,
                            out: pst.out,
                        }));
                    }
                },
                Token::Stores(iloc, s) => {
                    let il = *iloc;
                    let ghost h0 = atoms_v(m.heap@);
                    let ghost stk0 = m.stack@;
                    let ghost io_at = *io;
                    while il >= m.heap.len()
                        invariant
                            m.stack@ == stk0,
                            *io == io_at,
                            heap_grown(h0, il as int) == heap_grown(atoms_v(m.heap@), il as int),
                            h0.len() <= atoms_v(m.heap@).len(),
                        decreases il + 1 - m.heap@.len(),
                    {
                        let ghost hprev = atoms_v(m.heap@);
                        m.heap.push(Atom::Null);
                        proof {
                            assert(heap_grown(hprev, il as int) =~= heap_grown(
                                atoms_v(m.heap@),
                                il as int,
                            ));
                        }
                    }
                    proof {
                        assert(heap_grown(atoms_v(m.heap@), il as int) == atoms_v(m.heap@));
                        assert(atoms_v(m.heap@) == heap_grown(h0, il as int));
                    }
                    m.heap.set(il, Atom::VString(s.clone()));
                    pc = pc + 1;
                    proof {
                        assert(st_of(m, *io) == (StV {
                            stack: pst.stack,
                            heap: heap_grown(pst.heap, il as int).update(
                                il as int,
                                AtomV::Str(s@),
                            ),
                            ins: pst.ins,
                            out: pst.out,
                        }));
                    }
                },
                Token::Load(iloc) => {
                    let il = *iloc;
                    if il >= m.heap.len() {
                        return Err(RunError::HeapBounds(il));
                    }
                    let v = m.heap[il].clone();
                    m.stack.push(v);
                    pc = pc + 1;
                    proof {
                        assert(st_of(m, *io) == (StV {
                            stack: pst.stack.push(pst.heap[il as int]),
                            heap: pst.heap,
                            ins: pst.ins,
                            out: pst.out,
                        }));
                    }
                },
                Token::Add => {
                    if m.stack.len() < 2 {
                        return Err(RunError::StackEmpty);
                    }
                    let a = m.stack.pop().unwrap();
                    let b = m.stack.pop().unwrap();
                    match a.plus(b) {
                        Ok(v) => {
                            m.stack.push(v);
                            pc = pc + 1;
                        },
                        Err(e) => {
                            return Err(e);
                        },
                    }
                },
                Token::Sub => {
                    if m.stack.len() < 2 {
                        return Err(RunError::StackEmpty);
                    }
                    let a = m.stack.pop().unwrap();
                    let b = m.stack.pop().unwrap();
                    match a.minus(b) {
                        Ok(v) => {
                            m.stack.push(v);
                            pc = pc + 1;
                        },
                        Err(e) => {
                            return Err(e);
                        },
                    }
                },
                Token::Mul => {
                    if m.stack.len() < 2 {
                        return Err(RunError::StackEmpty);
                    }
                    let a = m.stack.pop().unwrap();
                    let b = m.stack.pop().unwrap();
                    match a.mult(b) {
                        Ok(v) => {
                            m.stack.push(v);
                            pc = pc + 1;
                        },
                        Err(e) => {
                            return Err(e);
                        },
                    }
                },
                Token::Div => {
                    if m.stack.len() < 2 {
                        return Err(RunError::StackEmpty);
                    }
                    let a = m.stack.pop().unwrap();
                    let b = m.stack.pop().unwrap();
                    match a.div(b) {
                        Ok(v) => {
                            m.stack.push(v);
                            pc = pc + 1;
                        },
                        Err(e) => {
                            return Err(e);
                        },
                    }
                },
                Token::Rem => {
                    if m.stack.len() < 2 {
                        return Err(RunError::StackEmpty);
                    }
                    let a = m.stack.pop().unwrap();
                    let b = m.stack.pop().unwrap();
                    match a.rem(b) {
                        Ok(v) => {
                            m.stack.push(v);
                            pc = pc + 1;
                        },
                        Err(e) => {
                            return Err(e);
                        },
                    }
                },
                Token::Eq => {
                    if m.stack.len() < 2 {
                        return Err(RunError::StackEmpty);
                    }
                    let a = m.stack.pop().unwrap();
                    let b = m.stack.pop().unwrap();
                    match a.eq(b) {
                        Ok(v) => {
                            m.stack.push(v);
                            pc = pc + 1;
                        },
                        Err(e) => {
                            return Err(e);
                        },
                    }
                },
                Token::Ne => {
                    if m.stack.len() < 2 {
                        return Err(RunError::StackEmpty);
                    }
                    let a = m.stack.pop().unwrap();
                    let b = m.stack.pop().unwrap();
                    match a.ne(b) {
                        Ok(v) => {
                            m.stack.push(v);
                            pc = pc + 1;
                        },
                        Err(e) => {
                            return Err(e);
                        },
                    }
                },
                Token::Lt => {
                    if m.stack.len() < 2 {
                        return Err(RunError::StackEmpty);
                    }
                    let a = m.stack.pop().unwrap();
                    let b = m.stack.pop().unwrap();
                    match a.lt(b) {
                        Ok(v) => {
                            m.stack.push(v);
                            pc = pc + 1;
                        },
                        Err(e) => {
                            return Err(e);
                        },
                    }
                },
                Token::Le => {
                    if m.stack.len() < 2 {
                        return Err(RunError::StackEmpty);
                    }
                    let a = m.stack.pop().unwrap();
                    let b = m.stack.pop().unwrap();
                    match a.le(b) {
                        Ok(v) => {
                            m.stack.push(v);
                            pc = pc + 1;
                        },
                        Err(e) => {
                            return Err(e);
                        },
                    }
                },
                Token::Gt => {
                    if m.stack.len() < 2 {
                        return Err(RunError::StackEmpty);
                    }
                    let a = m.stack.pop().unwrap();
                    let b = m.stack.pop().unwrap();
                    match a.gt(b) {
                        Ok(v) => {
                            m.stack.push(v);
                            pc = pc + 1;
                        },
                        Err(e) => {
                            return Err(e);
                        },
                    }
                },
                Token::Ge => {
                    if m.stack.len() < 2 {
                        return Err(RunError::StackEmpty);
                    }
                    let a = m.stack.pop().unwrap();
                    let b = m.stack.pop().unwrap();
                    match a.ge(b) {
                        Ok(v) => {
                            m.stack.push(v);
                            pc = pc + 1;
                        },
                        Err(e) => {
                            return Err(e);
                        },
                    }
                },
                Token::Label(_) => {
                    pc = pc + 1;
                },
                Token::Goto(l) => {
                    match self.labels.get(l) {
                        Some(tgt) => {
                            pc = *tgt;
                        },
                        None => {
                            return Err(RunError::UnknownLabel(*l));
                        },
                    }
                },
                Token::Branch(l) => {
                    let target: usize;
                    match self.labels.get(l) {
                        Some(tgt) => {
                            target = *tgt;
                        },
                        None => {
                            return Err(RunError::UnknownLabel(*l));
                        },
                    }
                    if m.stack.len() == 0 {
                        return Err(RunError::StackEmpty);
                    }
                    let z = m.stack.pop().unwrap();
                    match z {
                        Atom::VInt(c) => {
                            if c != 0 {
                                pc = target;
                            } else {
                                pc = pc + 1;
                            }
                            proof {
                                assert(st_of(m, *io) == (StV {
                                    stack: pst.stack.drop_last(),
                                    heap: pst.heap,
                                    ins: pst.ins,
                                    out: pst.out,
                                }));
                            }
                        },
                        other => {
                            return Err(RunError::NotInt(other));
                        },
                    }
                },
                Token::Call(name) => {
                    if str_eq(name.as_str(), "print") {
                        if m.stack.len() == 0 {
                            return Err(RunError::StackEmpty);
                        }
                        let a = m.stack.pop().unwrap();
                        let ghost av = a@;
                        let ghost hv = atoms_v(m.heap@);
                        match runtime::print(a, m, io) {
                            Ok(m2) => {
                                m = m2;
                                pc = pc + 1;
                                proof {
                                    assert(print_sem(pst, false) == Ok::<
                                        StV,
                                        crate::errors::FaultV,
                                    >(st_of(m, *io)));
                                }
                            },
                            Err(e) => {
                                proof {
                                    lemma_deref_fault_kinds(hv, av, hv.len() as nat);
                                }
                                return Err(e);
                            },
                        }
                    } else if str_eq(name.as_str(), "println") {
                        if m.stack.len() == 0 {
                            return Err(RunError::StackEmpty);
                        }
                        let a = m.stack.pop().unwrap();
                        let ghost av = a@;
                        let ghost hv = atoms_v(m.heap@);
                        match runtime::print(a, m, io) {
                            Ok(m2) => {
                                m = m2;
                                let mut nl: Vec<u8> = Vec::new();
                                nl.push(10);
                                io.emit(&nl);
                                pc = pc + 1;
                                proof {
                                    assert(nl@ =~= seq![10u8]);
                                    assert(print_sem(pst, true) matches Ok(st2) && (st_of(
                                        m,
                                        *io,
                                    ).out =~= st2.out));
                                    assert(print_sem(pst, true) == Ok::<
                                        StV,
                                        crate::errors::FaultV,
                                    >(st_of(m, *io)));
                                }
                            },
                            Err(e) => {
                                proof {
                                    lemma_deref_fault_kinds(hv, av, hv.len() as nat);
                                }
                                return Err(e);
                            },
                        }
                    } else if str_eq(name.as_str(), "readint") {
                        match runtime::readint(io) {
                            Ok(a) => {
                                m.stack.push(a);
                                pc = pc + 1;
                            },
                            Err(e) => {
                                return Err(e);
                            },
                        }
                    } else {
                        let mut k: usize = 0;
                        let mut hit = false;
                        loop
                            invariant_except_break
                                !hit,
                            invariant
                                k <= prog.func.defs@.len(),
                                defs == prog@.defs,
                                find_def(defs, name@, 0) == find_def(defs, name@, k as int),
                            ensures
                                hit ==> k < prog.func.defs@.len() && find_def(defs, name@, 0)
                                    == Some(k as int),
                                !hit ==> find_def(defs, name@, 0) is None,
                            decreases prog.func.defs@.len() - k,
                        {
                            if k >= prog.func.defs.len() {
                                break;
                            }
                            if str_eq(prog.func.defs[k].name.as_str(), name.as_str()) {
                                hit = true;
                                break;
                            }
                            k = k + 1;
                        }
                        if hit {
                            let d = &prog.func.defs[k];
                            let ghost fcall = fl as nat;
                            let r = d.simulate(m, prog, io, fl);
                            match r {
                                Ok(p) => {
                                    proof {
                                        lemma_sim_fuel(defs, defs[k as int].body, 0, pst, fcall);
                                    }
                                    m = p.0;
                                    fl = p.1;
                                    pc = pc + 1;
                                },
                                Err(e) => {
                                    return Err(e);
                                },
                            }
                        } else {
                            return Err(RunError::FnNotFound(name.clone()));
                        }
                    }
                },
                _ => {
                    return Err(RunError::BadToken);
                },
            }
            proof {
                assert(sim_exec(defs, code, ppc, pst, pfl) == sim_exec(
                    defs,
                    code,
                    pc as int,
                    st_of(m, *io),
                    fl as nat,
                ));
            }
        }
        Ok((m, fl))
    }
}

impl DeFun {
    /// Runs this function's body against the given memory and port.
    pub fn simulate(&self, mem: Memory, prog: &Program, io: &mut Io, fuel: u64) -> (r: Result<
        (Memory, u64),
        RunError,
    >)
        requires
            old(io).wf(),
        ensures
            final(io).wf(),
            final(io).echo == old(io).echo,
            final(io).input == old(io).input,
            match r {
                Ok(p) => sim_exec(prog@.defs, self@.body, 0, st_of(mem, *old(io)), fuel as nat)
                    == (SimRes::Done { st: st_of(p.0, *final(io)), fuel: p.1 as nat }),
                Err(e) => match e {
                    RunError::OutOfFuel => sim_exec(
                        prog@.defs,
                        self@.body,
                        0,
                        st_of(mem, *old(io)),
                        fuel as nat,
                    ) == SimRes::NoFuel,
                    _ => sim_exec(prog@.defs, self@.body, 0, st_of(mem, *old(io)), fuel as nat)
                        == SimRes::Fail(e@),
                },
            },
        decreases fuel, 1int,
    {
        self.body.simulate(mem, prog, io, fuel)
    }
}

impl Program {
    /// Runs every function named `main`, in declaration order, against one
    /// memory created by the caller; a program without `main` is a no-op.
    pub fn simulate(&self, mem: Memory, io: &mut Io, fuel: u64) -> (r: Result<
        (Memory, u64),
        RunError,
    >)
        requires
            old(io).wf(),
        ensures
            final(io).wf(),
            final(io).echo == old(io).echo,
            final(io).input == old(io).input,
            match r {
                Ok(p) => sim_mains(self@.defs, 0, st_of(mem, *old(io)), fuel as nat)
                    == (SimRes::Done { st: st_of(p.0, *final(io)), fuel: p.1 as nat }),
                Err(e) => match e {
                    RunError::OutOfFuel => sim_mains(
                        self@.defs,
                        0,
                        st_of(mem, *old(io)),
                        fuel as nat,
                    ) == SimRes::NoFuel,
                    _ => sim_mains(self@.defs, 0, st_of(mem, *old(io)), fuel as nat)
                        == SimRes::Fail(e@),
                },
            },
    {
        let ghost defs = self@.defs;
        let ghost st0 = st_of(mem, *old(io));
        let mut m = mem;
        let mut fl: u64 = fuel;
        let mut k: usize = 0;
        loop
            invariant
                io.wf(),
                io.echo == old(io).echo,
                io.input == old(io).input,
                k <= self.func.defs@.len(),
                defs == self@.defs,
                st0 == st_of(mem, *old(io)),
                sim_mains(defs, 0, st0, fuel as nat) == sim_mains(
                    defs,
                    k as int,
                    st_of(m, *io),
                    fl as nat,
                ),
            ensures
                io.wf(),
                io.echo == old(io).echo,
                io.input == old(io).input,
                sim_mains(defs, 0, st0, fuel as nat) == (SimRes::Done {
                    st: st_of(m, *io),
                    fuel: fl as nat,
                }),
            decreases self.func.defs@.len() - k,
        {
            if k >= self.func.defs.len() {
                break;
            }
            let d = &self.func.defs[k];
            if str_eq(d.name.as_str(), "main") {
                let ghost pst = st_of(m, *io);
                let r = d.simulate(m, self, io, fl);
                match r {
                    Ok(p) => {
                        m = p.0;
                        fl = p.1;
                    },
                    Err(e) => {
                        return Err(e);
                    },
                }
            }
            k = k + 1;
        }
        Ok((m, fl))
    }
}

/// The whole pipeline over one source text: tokenize, assemble, and run the
/// program's `main` against a fresh memory and the given port. The result is
/// exactly the composition of the tokenization, assembly and execution
/// semantics of the text, the port's pending input, and the budget.
pub fn run_source(source: String, io: &mut Io, fuel: u64) -> (r: Result<
    (Memory, u64),
    crate::errors::VmError,
>)
    requires
        old(io).wf(),
    ensures
        final(io).wf(),
        final(io).echo == old(io).echo,
        final(io).input == old(io).input,
        ({
            let stream = crate::scanner::scan_stream(source@, 0, 0);
            let st0 = StV {
                stack: Seq::empty(),
                heap: Seq::empty(),
                ins: old(io).ins(),
                out: old(io).out@,
            };
            match r {
                Ok(p) => (match crate::ir::asm_program(stream.0, stream.1) {
                    Ok(pv) => sim_mains(pv.defs, 0, st0, fuel as nat) == (SimRes::Done {
                        st: st_of(p.0, *final(io)),
                        fuel: p.1 as nat,
                    }),
                    Err(_) => false,
                }),
                Err(crate::errors::VmError::Build(e)) => crate::ir::asm_program(stream.0, stream.1)
                    == Err::<crate::ir::ProgramV, crate::errors::BuildErrV>(e@) && *final(io)
                    == *old(io),
                Err(crate::errors::VmError::Run(e)) => (match crate::ir::asm_program(
                    stream.0,
                    stream.1,
                ) {
                    Ok(pv) => match e {
                        RunError::OutOfFuel => sim_mains(pv.defs, 0, st0, fuel as nat)
                            == SimRes::NoFuel,
                        _ => sim_mains(pv.defs, 0, st0, fuel as nat) == SimRes::Fail(e@),
                    },
                    Err(_) => false,
                }),
            }
        }),
{
    let scanner = crate::scanner::Scanner::from_string(source);
    match crate::ir::make_ir(scanner) {
        Ok(p) => {
            let m = Memory::new();
            proof {
                assert(atoms_v(m.stack@) =~= Seq::<AtomV>::empty());
                assert(atoms_v(m.heap@) =~= Seq::<AtomV>::empty());
            }
            match p.simulate(m, io, fuel) {
                Ok(res) => Ok(res),
                Err(e) => Err(crate::errors::VmError::Run(e)),
            }
        },
        Err(e) => Err(crate::errors::VmError::Build(e)),
    }
}

} // verus!
