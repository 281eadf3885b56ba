//! Runtime primitives: the print operation, which follows heap references
//! to a plain value and writes its textual form, and the blocking integer
//! read, which takes one whitespace-delimited token from the input and
//! parses it as a 32-bit decimal integer.

use vstd::prelude::*;
use vstd::string::StrSliceExecFns;

use crate::atom::Atom;
use crate::atom::Memory;
use crate::atom::atoms_v;
use crate::errors::RunError;
use crate::float;
use crate::io::Io;
use crate::numbers::parse_i32;
use crate::numbers::render_i32;
use crate::sem::bytes_chars;
use crate::sem::deref_heap;
use crate::sem::read_int_sem;
use crate::sem::skip_ws;
use crate::sem::text_of;
use crate::sem::tok_len;
use crate::sem::ws_byte;

verus! {

broadcast use vstd::seq::group_seq_axioms, vstd::seq_lib::group_seq_lib_default;

/// Writes one atom's textual form to the port: a heap reference is followed,
/// slot by slot, until a plain value is reached; integers and floats print
/// in decimal, strings verbatim, null as the literal text `Null`. The memory
/// passes through untouched.
pub fn print(atom: Atom, mem: Memory, io: &mut Io) -> (r: Result<Memory, RunError>)
    requires
        old(io).wf(),
    ensures
        final(io).wf(),
        final(io).echo == old(io).echo,
        final(io).input == old(io).input,
        final(io).pos == old(io).pos,
        match r {
            Ok(m2) => {
                &&& m2 == mem
                &&& match deref_heap(atoms_v(mem.heap@), atom@, mem.heap@.len() as nat) {
                    Ok(v) => final(io).out@ == old(io).out@ + text_of(v),
                    Err(_) => false,
                }
            },
            Err(e) => {
                &&& deref_heap(atoms_v(mem.heap@), atom@, mem.heap@.len() as nat) == Err::<
                    crate::atom::AtomV,
                    crate::errors::FaultV,
                >(e@)
                &&& final(io).out == old(io).out
            },
        },
{
    let ghost heap_v = atoms_v(mem.heap@);
    let bound = mem.heap.len();
    let mut a = atom;
    let mut steps: usize = 0;
    loop
        invariant
            io.wf(),
            *io == *old(io),
            steps <= bound,
            bound == mem.heap@.len(),
            heap_v == atoms_v(mem.heap@),
            deref_heap(heap_v, atom@, bound as nat) == deref_heap(
                heap_v,
                a@,
                (bound - steps) as nat,
            ),
        ensures
            io.wf(),
            *io == *old(io),
            bound == mem.heap@.len(),
            deref_heap(heap_v, atom@, bound as nat) == Ok::<
                crate::atom::AtomV,
                crate::errors::FaultV,
            >(a@),
            !(a@ is Ref),
        decreases bound - steps,
    {
        match &a {
            Atom::Ref(rr) => {
                if *rr >= mem.heap.len() {
                    return Err(RunError::HeapBounds(*rr));
                }
                if steps == bound {
                    return Err(RunError::CircularRef(*rr));
                }
                let next = mem.heap[*rr].clone();
                a = next;
                steps = steps + 1;
            },
            _ => {
                break;
            },
        }
    }
    let text: Vec<u8> = match &a {
        Atom::VInt(v) => render_i32(*v),
        Atom::VFloat(b) => float::render(*b),
        Atom::VString(s) => s.as_str().as_bytes_vec(),
        Atom::Null => {
            let mut t: Vec<u8> = Vec::new();
            t.push(78);
            t.push(117);
            t.push(108);
            t.push(108);
            proof {
                assert(t@ =~= seq![78u8, 117u8, 108u8, 108u8]);
            }
            t
        },
        Atom::Ref(_) => {
            proof {
                assert(false);
            }
            Vec::new()
        },
    };
    io.emit(&text);
    Ok(mem)
}

/// The length of the leading non-whitespace run is pinned by what its bytes
/// look like.
proof fn lemma_tok_len_is(s: Seq<u8>, n: int)
    requires
        0 <= n <= s.len(),
        forall|j: int| 0 <= j < n ==> !ws_byte(#[trigger] s[j]),
        n == s.len() || ws_byte(s[n]),
    ensures
        tok_len(s) == n,
    decreases n,
{
    if n == 0 {
    } else {
        assert(!ws_byte(s[0]));
        lemma_tok_len_is(s.drop_first(), n - 1);
    }
}

/// Reads one whitespace-delimited token from the port and parses it as a
/// 32-bit decimal integer; malformed or exhausted input is an error carrying
/// the offending token. The terminating whitespace byte is consumed.
pub fn readint(io: &mut Io) -> (r: Result<Atom, RunError>)
    requires
        old(io).wf(),
    ensures
        final(io).wf(),
        final(io).echo == old(io).echo,
        final(io).input == old(io).input,
        final(io).out == old(io).out,
        match r {
            Ok(a) => match read_int_sem(old(io).ins()) {
                Ok((v, rest)) => a == Atom::VInt(v) && final(io).ins() == rest,
                Err(_) => false,
            },
            Err(e) => match read_int_sem(old(io).ins()) {
                Ok(_) => false,
                Err(tok) => e@ == crate::errors::FaultV::BadInput(tok),
            },
        },
{
    let ghost ins0 = old(io).ins();
    let ghost rest0 = skip_ws(ins0);
    let mut tok: Vec<u8> = Vec::new();
    let mut at_end = false;
    // skip leading whitespace; the first non-whitespace byte starts the token
    loop
        invariant_except_break
            tok@ == Seq::<u8>::empty(),
            !at_end,
            skip_ws(io.ins()) == rest0,
        invariant
            io.wf(),
            io.out == old(io).out,
            io.echo == old(io).echo,
            io.input == old(io).input,
        ensures
            io.wf(),
            io.out == old(io).out,
            io.echo == old(io).echo,
            io.input == old(io).input,
            at_end ==> rest0 == Seq::<u8>::empty() && io.ins().len() == 0 && tok@ == Seq::<
                u8,
            >::empty(),
            !at_end ==> tok@.len() == 1 && tok@[0] == rest0[0] && !ws_byte(rest0[0])
                && rest0.len() > 0 && io.ins() == rest0.drop_first(),
        decreases io.ins().len(),
    {
        let b = io.read_byte();
        match b {
            None => {
                at_end = true;
                proof {
                    assert(skip_ws(io.ins()) == io.ins());
                }
                break;
            },
            Some(x) => {
                if x == 9 || x == 10 || x == 13 || x == 32 {
                } else {
                    tok.push(x);
                    break;
                }
            },
        }
    }
    if !at_end {
        // collect the token up to the next whitespace byte, consuming it
        loop
            invariant_except_break
                io.ins() == rest0.skip(tok@.len() as int),
            invariant
                io.wf(),
                io.out == old(io).out,
                io.echo == old(io).echo,
                io.input == old(io).input,
                1 <= tok@.len() <= rest0.len(),
                tok@ == rest0.subrange(0, tok@.len() as int),
                forall|j: int| 0 <= j < tok@.len() ==> !ws_byte(#[trigger] rest0[j]),
            ensures
                io.wf(),
                io.out == old(io).out,
                io.echo == old(io).echo,
                io.input == old(io).input,
                tok@ == rest0.subrange(0, tok_len(rest0)),
                io.ins() == (if tok_len(rest0) < rest0.len() {
                    rest0.skip(tok_len(rest0) + 1)
                } else {
                    rest0.skip(tok_len(rest0))
                }),
            decreases io.ins().len(),
        {
            let b = io.read_byte();
            match b {
                None => {
                    proof {
                        lemma_tok_len_is(rest0, tok@.len() as int);
                    }
                    break;
                },
                Some(x) => {
                    if x == 9 || x == 10 || x == 13 || x == 32 {
                        proof {
                            lemma_tok_len_is(rest0, tok@.len() as int);
                            assert(rest0.skip(tok@.len() as int).drop_first() =~= rest0.skip(
                                tok@.len() as int + 1,
                            ));
                        }
                        break;
                    }
                    tok.push(x);
                    proof {
                        assert(tok@ =~= rest0.subrange(0, tok@.len() as int));
                        assert(rest0.skip(tok@.len() as int - 1).drop_first() =~= rest0.skip(
                            tok@.len() as int,
                        ));
                    }
                },
            }
        }
    } else {
        proof {
            lemma_tok_len_is(rest0, 0);
            assert(tok@ =~= rest0.subrange(0, tok_len(rest0)));
        }
    }
    // parse the token as a 32-bit decimal integer
    let mut chars: Vec<char> = Vec::new();
    let mut i: usize = 0;
    while i < tok.len()
        invariant
            i <= tok@.len(),
            chars@ == bytes_chars(tok@.subrange(0, i as int)),
        decreases tok@.len() - i,
    {
        chars.push(tok[i] as char);
        proof {
            assert(chars@ =~= bytes_chars(tok@.subrange(0, i + 1)));
        }
        i += 1;
    }
    proof {
        assert(tok@.subrange(0, tok@.len() as int) =~= tok@);
    }
    match parse_i32(&chars) {
        Some(v) => Ok(Atom::VInt(v)),
        None => Err(RunError::BadInput(tok)),
    }
}

} // verus!
