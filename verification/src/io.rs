//! The machine's connection to the process streams. All output is recorded
//! in `out` (and echoed to standard output when `echo` is set, flushed at
//! once); all input comes from the `input` buffer, of which `pos` bytes are
//! already consumed. The record is what the contracts speak about.

use vstd::prelude::*;

verus! {

broadcast use vstd::seq::group_seq_axioms, vstd::seq_lib::group_seq_lib_default;

/// The input and output port of one run.
#[derive(Debug)]
pub struct Io {
    pub input: Vec<u8>,
    pub pos: usize,
    pub out: Vec<u8>,
    pub echo: bool,
}

impl Io {
    /// The consumed prefix never exceeds the input.
    pub open spec fn wf(&self) -> bool {
        self.pos <= self.input@.len()
    }

    /// The input bytes still to be read.
    pub open spec fn ins(&self) -> Seq<u8> {
        self.input@.skip(self.pos as int)
    }

    /// A port with the given input buffer that only records its output.
    pub fn with_input(input: Vec<u8>) -> (io: Io)
        ensures
            io.wf(),
            io.ins() == input@,
            io.out@ == Seq::<u8>::empty(),
            !io.echo,
    {
        let io = Io { input, pos: 0, out: Vec::new(), echo: false };
        proof {
            assert(io.ins() =~= io.input@);
        }
        io
    }

    /// A port with the given input buffer that also echoes every emitted
    /// byte to standard output, flushing at once.
    pub fn echoing(input: Vec<u8>) -> (io: Io)
        ensures
            io.wf(),
            io.ins() == input@,
            io.out@ == Seq::<u8>::empty(),
            io.echo,
    {
        let io = Io { input, pos: 0, out: Vec::new(), echo: true };
        proof {
            assert(io.ins() =~= io.input@);
        }
        io
    }

    /// Reads one byte of the remaining input; `None` at its end.
    pub fn read_byte(&mut self) -> (r: Option<u8>)
        requires
            old(self).wf(),
        ensures
            final(self).wf(),
            final(self).out == old(self).out,
            final(self).echo == old(self).echo,
            final(self).input == old(self).input,
            match r {
                Some(b) => {
                    &&& old(self).ins().len() > 0
                    &&& b == old(self).ins()[0]
                    &&& final(self).ins() == old(self).ins().drop_first()
                },
                None => {
                    &&& old(self).ins().len() == 0
                    &&& final(self).ins() == old(self).ins()
                },
            },
    {
        if self.pos < self.input.len() {
            let b = self.input[self.pos];
            self.pos = self.pos + 1;
            proof {
                assert(self.ins() =~= old(self).ins().drop_first());
            }
            Some(b)
        } else {
            None
        }
    }

    /// Appends bytes to the output record, echoing them where enabled.
    pub fn emit(&mut self, bytes: &Vec<u8>)
        requires
            old(self).wf(),
        ensures
            final(self).wf(),
            final(self).out@ == old(self).out@ + bytes@,
            final(self).echo == old(self).echo,
            final(self).input == old(self).input,
            final(self).pos == old(self).pos,
    {
        if self.echo {
            write_stdout(bytes);
            flush_stdout();
        }
        let mut i: usize = 0;
        while i < bytes.len()
            invariant
                i <= bytes@.len(),
                self.out@ == old(self).out@ + bytes@.subrange(0, i as int),
                self.echo == old(self).echo,
                self.input == old(self).input,
                self.pos == old(self).pos,
            decreases bytes@.len() - i,
        {
            self.out.push(bytes[i]);
            proof {
                assert(self.out@ =~= old(self).out@ + bytes@.subrange(0, i + 1));
            }
            i += 1;
        }
        proof {
            assert(bytes@.subrange(0, bytes@.len() as int) =~= bytes@);
        }
    }
}

/// Relies on `std::io::Write::write_all` on standard output: it writes the
/// bytes; a write error is ignored here, as nothing can be reported past a
/// broken output stream.
#[verifier::external_body]
fn write_stdout(bytes: &Vec<u8>) {
    let _ = std::io::Write::write_all(&mut std::io::stdout(), bytes.as_slice());
}

/// Relies on `std::io::Write::flush` on standard output.
#[verifier::external_body]
fn flush_stdout() {
    let _ = std::io::Write::flush(&mut std::io::stdout());
}

} // verus!
