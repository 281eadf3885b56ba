//! End-to-end runs of assembled programs through the interpreter.

use rvmi::atom::Atom;
use rvmi::atom::Memory;
use rvmi::errors::RunError;
use rvmi::io::Io;
use rvmi::ir::Program;
use rvmi::ir::make_ir;
use rvmi::scanner::Scanner;

const FUEL: u64 = 1_000_000;

fn build(src: &str) -> Program {
    make_ir(Scanner::from_string(src.to_string())).unwrap()
}

fn wrap_main(body: &str) -> String {
    let mut s = String::from(".raw\n.class\n.function\ndefun main 0 NULL\n");
    s.push_str(body);
    s.push_str("\nendef\n");
    s
}

fn run_body(body: &str, input: &[u8]) -> (Memory, Io) {
    let p = build(&wrap_main(body));
    let mut io = Io::with_input(input.to_vec());
    let (m, _left) = p.simulate(Memory::new(), &mut io, FUEL).unwrap();
    (m, io)
}

fn run_body_err(body: &str, input: &[u8]) -> RunError {
    let p = build(&wrap_main(body));
    let mut io = Io::with_input(input.to_vec());
    p.simulate(Memory::new(), &mut io, FUEL).unwrap_err()
}

#[test]
fn branch_on_zero_falls_through() {
    let (m, _) = run_body("pushi 0\nbranch 5\npushi 111\nlabel 5", b"");
    assert_eq!(m.stack, vec![Atom::VInt(111)]);
}

#[test]
fn branch_on_one_jumps() {
    let (m, _) = run_body("pushi 1\nbranch 5\npushi 111\nlabel 5", b"");
    assert_eq!(m.stack, vec![]);
}

#[test]
fn sub_pops_right_then_left() {
    // pushi 3; pushi 4; sub must compute 4 - 3 = 1, not 3 - 4
    let (m, _) = run_body("pushi 3\npushi 4\nsub", b"");
    assert_eq!(m.stack, vec![Atom::VInt(1)]);
}

#[test]
fn division_by_zero_faults() {
    // the divisor is popped second: the left operand 1 divided by zero
    let e = run_body_err("pushi 0\npushi 1\ndiv", b"");
    assert!(matches!(e, RunError::DivByZero));
}

#[test]
fn division_with_zero_left_operand_succeeds() {
    let (m, _) = run_body("pushi 1\npushi 0\ndiv", b"");
    assert_eq!(m.stack, vec![Atom::VInt(0)]);
}

#[test]
fn store_extends_heap_with_nulls() {
    let (m, _) = run_body("pushi 42\nstore 5", b"");
    assert_eq!(m.heap.len(), 6);
    for i in 0..5 {
        assert_eq!(m.heap[i], Atom::Null);
    }
    assert_eq!(m.heap[5], Atom::VInt(42));
    assert_eq!(m.stack, vec![]);
}

#[test]
fn string_print_round_trip() {
    let (_, io) = run_body("stores 0 3 \"abc\"\nload 0\ncall print", b"");
    assert_eq!(io.out, b"abc".to_vec());
}

#[test]
fn string_println_round_trip() {
    let (_, io) = run_body("stores 0 3 \"abc\"\nload 0\ncall println", b"");
    assert_eq!(io.out, b"abc\n".to_vec());
}

#[test]
fn duplicate_name_calls_first_declaration() {
    let src = "\
.raw\n.class\n.function\n\
defun f 0 NULL\npushi 1\nendef\n\
defun f 0 NULL\npushi 2\nendef\n\
defun main 0 NULL\ncall f\nendef\n";
    let p = build(src);
    let mut io = Io::with_input(Vec::new());
    let (m, _) = p.simulate(Memory::new(), &mut io, FUEL).unwrap();
    assert_eq!(m.stack, vec![Atom::VInt(1)]);
}

#[test]
fn unknown_call_target_faults_naming_it() {
    let e = run_body_err("call nope", b"");
    match e {
        RunError::FnNotFound(name) => {
            assert_eq!(name, "nope");
        }
        other => panic!("wrong fault: {:?}", other),
    }
}

#[test]
fn unknown_call_diagnostic_says_not_found() {
    let e = run_body_err("call nope", b"");
    assert_eq!(e.text(), "nope() not found");
}

#[test]
fn factorial_of_five_leaves_120() {
    // slot 0: counter, slot 1: accumulator
    let body = "\
pushi 5\nstore 0\n\
pushi 1\nstore 1\n\
label 0\n\
load 0\npushi 0\neq\nbranch 1\n\
load 1\nload 0\nmul\nstore 1\n\
pushi 1\nload 0\nsub\nstore 0\n\
goto 0\n\
label 1\n\
load 1";
    let (m, _) = run_body(body, b"");
    assert_eq!(m.stack, vec![Atom::VInt(120)]);
}

#[test]
fn factorial_of_five_prints_120() {
    let body = "\
pushi 5\nstore 0\n\
pushi 1\nstore 1\n\
label 0\n\
load 0\npushi 0\neq\nbranch 1\n\
load 1\nload 0\nmul\nstore 1\n\
pushi 1\nload 0\nsub\nstore 0\n\
goto 0\n\
label 1\n\
load 1\ncall print";
    let (_, io) = run_body(body, b"");
    assert_eq!(io.out, b"120".to_vec());
}

#[test]
fn goto_skips_to_label() {
    let (m, _) = run_body("goto 3\npushi 9\nlabel 3", b"");
    assert_eq!(m.stack, vec![]);
}

#[test]
fn duplicate_label_last_occurrence_wins() {
    let (m, _) = run_body("goto 1\nlabel 1\npushi 7\nlabel 1\npushi 8", b"");
    assert_eq!(m.stack, vec![Atom::VInt(8)]);
}

#[test]
fn readint_reads_and_adds() {
    let (_, io) = run_body("call readint\ncall readint\nadd\ncall print", b"3 4");
    assert_eq!(io.out, b"7".to_vec());
}

#[test]
fn readint_malformed_input_faults() {
    let e = run_body_err("call readint", b"zzz");
    match e {
        RunError::BadInput(tok) => assert_eq!(tok, b"zzz".to_vec()),
        other => panic!("wrong fault: {:?}", other),
    }
}

#[test]
fn readint_exhausted_input_faults() {
    let e = run_body_err("call readint", b"");
    assert!(matches!(e, RunError::BadInput(_)));
}

#[test]
fn pop_on_empty_stack_faults() {
    let e = run_body_err("pop", b"");
    assert!(matches!(e, RunError::StackEmpty));
}

#[test]
fn dup_on_empty_stack_faults() {
    let e = run_body_err("dup", b"");
    assert!(matches!(e, RunError::StackEmpty));
}

#[test]
fn dup_duplicates_top() {
    let (m, _) = run_body("pushi 4\ndup\nadd", b"");
    assert_eq!(m.stack, vec![Atom::VInt(8)]);
}

#[test]
fn add_with_one_operand_faults() {
    let e = run_body_err("pushi 1\nadd", b"");
    assert!(matches!(e, RunError::StackEmpty));
}

#[test]
fn load_past_heap_end_faults() {
    let e = run_body_err("load 0", b"");
    assert!(matches!(e, RunError::HeapBounds(0)));
}

#[test]
fn goto_to_unknown_label_faults() {
    let e = run_body_err("goto 9", b"");
    assert!(matches!(e, RunError::UnknownLabel(9)));
}

#[test]
fn branch_on_string_faults() {
    let e = run_body_err("stores 0 1 \"x\"\nload 0\nbranch 0\nlabel 0", b"");
    assert!(matches!(e, RunError::NotInt(Atom::VString(_))));
}

#[test]
fn type_mismatch_int_plus_string_faults() {
    let e = run_body_err("stores 0 1 \"x\"\nload 0\npushi 1\nadd", b"");
    assert!(matches!(e, RunError::TypeMismatch(_, _)));
}

#[test]
fn arithmetic_on_null_faults() {
    let e = run_body_err("pushi 0\nstore 9\nload 8\nload 8\nadd", b"");
    assert!(matches!(e, RunError::BadOperand(Atom::Null)));
}

#[test]
fn integer_division_overflow_faults() {
    let e = run_body_err("pushi -1\npushi -2147483648\ndiv", b"");
    assert!(matches!(e, RunError::ArithOverflow));
}

#[test]
fn remainder_by_zero_faults() {
    let e = run_body_err("pushi 0\npushi 7\nrem", b"");
    assert!(matches!(e, RunError::DivByZero));
}

#[test]
fn remainder_is_integer_only() {
    let e = run_body_err("pushf 1.5\npushf 2.5\nrem", b"");
    assert!(matches!(e, RunError::BadOperand(_)));
}

#[test]
fn addition_wraps_on_overflow() {
    let (m, _) = run_body("pushi 1\npushi 2147483647\nadd", b"");
    assert_eq!(m.stack, vec![Atom::VInt(i32::MIN)]);
}

#[test]
fn comparisons_push_one_or_zero() {
    let (m, _) = run_body("pushi 2\npushi 5\ngt", b"");
    assert_eq!(m.stack, vec![Atom::VInt(1)]);
    let (m, _) = run_body("pushi 2\npushi 5\nle", b"");
    assert_eq!(m.stack, vec![Atom::VInt(0)]);
    let (m, _) = run_body("pushi 5\npushi 5\nge", b"");
    assert_eq!(m.stack, vec![Atom::VInt(1)]);
    let (m, _) = run_body("pushi 5\npushi 4\nlt", b"");
    assert_eq!(m.stack, vec![Atom::VInt(1)]);
    let (m, _) = run_body("pushi 5\npushi 4\nne", b"");
    assert_eq!(m.stack, vec![Atom::VInt(1)]);
    let (m, _) = run_body("pushi 5\npushi 5\neq", b"");
    assert_eq!(m.stack, vec![Atom::VInt(1)]);
}

#[test]
fn string_equality_compares_contents() {
    let (m, _) = run_body("stores 0 1 \"x\"\nstores 1 1 \"x\"\nload 0\nload 1\neq", b"");
    assert_eq!(m.stack, vec![Atom::VInt(1)]);
    let (m, _) = run_body("stores 0 1 \"x\"\nstores 1 1 \"y\"\nload 0\nload 1\nne", b"");
    assert_eq!(m.stack, vec![Atom::VInt(1)]);
}

#[test]
fn float_addition_is_ieee() {
    let (m, _) = run_body("pushf 1.5\npushf 2.25\nadd", b"");
    assert_eq!(m.stack, vec![Atom::VFloat((1.5f32 + 2.25f32).to_bits())]);
}

#[test]
fn float_comparison_uses_ieee_order() {
    // left operand is the last pushed: 1.0 > 2.0 is false
    let (m, _) = run_body("pushf 2.0\npushf 1.0\ngt", b"");
    assert_eq!(m.stack, vec![Atom::VInt(0)]);
}

#[test]
fn float_prints_in_decimal() {
    let (_, io) = run_body("pushf 1.5\ncall print", b"");
    assert_eq!(io.out, b"1.5".to_vec());
}

#[test]
fn null_prints_as_literal_null() {
    let (_, io) = run_body("pushi 0\nstore 3\nload 2\ncall print", b"");
    assert_eq!(io.out, b"Null".to_vec());
}

#[test]
fn heap_is_shared_across_calls() {
    let src = "\
.raw\n.class\n.function\n\
defun set 0 NULL\npushi 9\nstore 0\nendef\n\
defun main 0 NULL\ncall set\nload 0\nendef\n";
    let p = build(src);
    let mut io = Io::with_input(Vec::new());
    let (m, _) = p.simulate(Memory::new(), &mut io, FUEL).unwrap();
    assert_eq!(m.stack, vec![Atom::VInt(9)]);
}

#[test]
fn structural_token_in_body_faults() {
    let src = "\
.raw\n.class\n.function\n\
defun main 0 NULL\ndefun g 0 NULL\nendef\nendef\n";
    let p = build(src);
    let mut io = Io::with_input(Vec::new());
    let e = p.simulate(Memory::new(), &mut io, FUEL).unwrap_err();
    assert!(matches!(e, RunError::BadToken));
}

#[test]
fn missing_main_is_a_no_op() {
    let src = ".raw\n.class\n.function\ndefun f 0 NULL\npushi 1\nendef\n";
    let p = build(src);
    let mut io = Io::with_input(Vec::new());
    let (m, _) = p.simulate(Memory::new(), &mut io, FUEL).unwrap();
    assert_eq!(m.stack, vec![]);
    assert_eq!(io.out, Vec::<u8>::new());
}

#[test]
fn every_main_runs_in_order() {
    let src = "\
.raw\n.class\n.function\n\
defun main 0 NULL\npushi 1\nendef\n\
defun main 0 NULL\npushi 2\nendef\n";
    let p = build(src);
    let mut io = Io::with_input(Vec::new());
    let (m, _) = p.simulate(Memory::new(), &mut io, FUEL).unwrap();
    assert_eq!(m.stack, vec![Atom::VInt(1), Atom::VInt(2)]);
}

#[test]
fn endless_loop_exhausts_the_budget() {
    let p = build(&wrap_main("label 0\ngoto 0"));
    let mut io = Io::with_input(Vec::new());
    let e = p.simulate(Memory::new(), &mut io, 100).unwrap_err();
    assert!(matches!(e, RunError::OutOfFuel));
}

#[test]
fn print_follows_reference_chains() {
    let mem = Memory {
        stack: vec![],
        heap: vec![Atom::Ref(1), Atom::VInt(9)],
    };
    let mut io = Io::with_input(Vec::new());
    let m2 = rvmi::runtime::print(Atom::Ref(0), mem, &mut io).unwrap();
    assert_eq!(io.out, b"9".to_vec());
    assert_eq!(m2.heap.len(), 2);
}

#[test]
fn print_faults_on_reference_cycle() {
    let mem = Memory {
        stack: vec![],
        heap: vec![Atom::Ref(0)],
    };
    let mut io = Io::with_input(Vec::new());
    let e = rvmi::runtime::print(Atom::Ref(0), mem, &mut io).unwrap_err();
    assert!(matches!(e, RunError::CircularRef(0)));
    assert_eq!(io.out, Vec::<u8>::new());
}

#[test]
fn print_faults_on_dangling_reference() {
    let mem = Memory { stack: vec![], heap: vec![] };
    let mut io = Io::with_input(Vec::new());
    let e = rvmi::runtime::print(Atom::Ref(5), mem, &mut io).unwrap_err();
    assert!(matches!(e, RunError::HeapBounds(5)));
}

#[test]
fn stores_does_not_pop() {
    let (m, _) = run_body("pushi 3\nstores 0 1 \"x\"", b"");
    assert_eq!(m.stack, vec![Atom::VInt(3)]);
    assert_eq!(m.heap[0], Atom::VString("x".to_string()));
}

#[test]
fn quoted_words_keep_spaces() {
    let (_, io) = run_body("stores 0 3 \"a b\"\nload 0\ncall print", b"");
    assert_eq!(io.out, b"a b".to_vec());
}

#[test]
fn negative_numbers_print_with_sign() {
    let (_, io) = run_body("pushi 5\npushi 0\nsub\ncall print", b"");
    assert_eq!(io.out, b"-5".to_vec());
}

#[test]
fn run_source_goes_end_to_end() {
    let src = ".raw\n.class\n.function\ndefun main 0 NULL\npushi 5\ncall print\nendef\n";
    let mut io = Io::with_input(Vec::new());
    let (m, _) = rvmi::interp::run_source(src.to_string(), &mut io, 1000).unwrap();
    assert_eq!(io.out, b"5".to_vec());
    assert_eq!(m.stack, vec![]);
}

#[test]
fn run_source_reports_build_errors() {
    let mut io = Io::with_input(Vec::new());
    let e = rvmi::interp::run_source("junk".to_string(), &mut io, 1000).unwrap_err();
    assert!(matches!(e, rvmi::errors::VmError::Build(_)));
}

#[test]
fn run_source_reports_run_faults() {
    let src = ".raw\n.class\n.function\ndefun main 0 NULL\npop\nendef\n";
    let mut io = Io::with_input(Vec::new());
    let e = rvmi::interp::run_source(src.to_string(), &mut io, 1000).unwrap_err();
    assert!(matches!(e, rvmi::errors::VmError::Run(RunError::StackEmpty)));
}
