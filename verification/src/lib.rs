//! A small stack-based virtual machine for a textual bytecode assembly
//! language: a tokenizer, a structural assembler that builds a function table
//! and resolves jump labels, and a fetch-decode-execute interpreter over a
//! shared operand stack and auto-extending heap. Every stage's behaviour is
//! pinned to a mathematical semantics: tokenization to a character-level
//! scan, assembly to the program grammar, execution to a step-budgeted
//! big-step interpreter over sequences.

pub mod atom;
pub mod chars;
pub mod errors;
pub mod float;
pub mod interp;
pub mod io;
pub mod ir;
pub mod numbers;
pub mod runtime;
pub mod scanner;
pub mod sem;

pub use atom::Atom;
pub use atom::Memory;
pub use atom::Type;
pub use errors::BuildError;
pub use errors::RunError;
pub use errors::VmError;
pub use interp::run_source;
pub use io::Io;
pub use ir::Program;
pub use scanner::Scanner;
