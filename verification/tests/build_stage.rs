//! The build pipeline: tokenization, grammar enforcement, label resolution,
//! and the helpers under them.

use rvmi::atom::Type;
use rvmi::errors::BuildError;
use rvmi::errors::ExpectedTok;
use rvmi::errors::ScanErrorKind;
use rvmi::ir::make_ir;
use rvmi::numbers::parse_i32;
use rvmi::numbers::parse_usize;
use rvmi::numbers::render_i32;
use rvmi::scanner::Scanner;
use rvmi::scanner::Token;

#[test]
fn scanner_emits_tokens_with_rows() {
    let mut s = Scanner::from_string("pushi 1\npushi 2\n pop".to_string());
    let a = s.next().unwrap();
    let b = s.next().unwrap();
    let c = s.next().unwrap();
    assert!(s.next().is_none());
    assert!(matches!(a.token, Token::Pushi(1)));
    assert!(matches!(b.token, Token::Pushi(2)));
    assert!(matches!(c.token, Token::Pop));
    assert_eq!(a.row, 0);
    assert_eq!(b.row, 1);
    assert_eq!(c.row, 2);
}

#[test]
fn scanner_rows_never_decrease() {
    let src = "pushi 1\n; note\npushi 2 pop\n\ndup\nadd";
    let mut s = Scanner::from_string(src.to_string());
    let mut last = 0usize;
    while let Some(i) = s.next() {
        assert!(i.row >= last);
        last = i.row;
    }
}

#[test]
fn scanner_skips_comments() {
    let mut s = Scanner::from_string("; whole line\npop ; trailing\ndup".to_string());
    assert!(matches!(s.next().unwrap().token, Token::Pop));
    assert!(matches!(s.next().unwrap().token, Token::Dup));
    assert!(s.next().is_none());
}

#[test]
fn scanner_takes_quoted_spans_verbatim() {
    let mut s = Scanner::from_string("stores 2 7 \"hi ; no\"".to_string());
    match s.next().unwrap().token {
        Token::Stores(slot, text) => {
            assert_eq!(slot, 2);
            assert_eq!(text, "hi ; no");
        }
        other => panic!("wrong token: {:?}", other),
    }
}

#[test]
fn scanner_reads_defun_signature() {
    let mut s = Scanner::from_string("defun f 2 int float string".to_string());
    match s.next().unwrap().token {
        Token::Defun(name, pars, ret) => {
            assert_eq!(name, "f");
            assert_eq!(pars.len(), 2);
            assert!(matches!(pars[0], Type::TInt));
            assert!(matches!(pars[1], Type::TFloat));
            assert!(matches!(ret, Type::TString));
        }
        other => panic!("wrong token: {:?}", other),
    }
}

#[test]
fn scanner_rejects_unknown_keyword() {
    let mut s = Scanner::from_string("pop\nbogus 1".to_string());
    assert!(matches!(s.next().unwrap().token, Token::Pop));
    assert!(s.next().is_none());
    let e = s.scan_error().as_ref().unwrap();
    assert_eq!(e.word, "bogus");
    assert_eq!(e.row, 1);
    assert_eq!(e.kind, ScanErrorKind::BadKeyword);
}

#[test]
fn scanner_rejects_malformed_number() {
    let mut s = Scanner::from_string("pushi nine".to_string());
    assert!(s.next().is_none());
    let e = s.scan_error().as_ref().unwrap();
    assert_eq!(e.word, "nine");
    assert_eq!(e.kind, ScanErrorKind::BadNumber);
}

#[test]
fn scan_error_text_names_row_and_word() {
    let mut s = Scanner::from_string("bogus".to_string());
    assert!(s.next().is_none());
    let e = s.scan_error().as_ref().unwrap();
    assert_eq!(e.text(), "(scanner) line 0: bogus is not a valid instruction");
}

#[test]
fn empty_program_assembles() {
    let p = make_ir(Scanner::from_string(".raw\n.class\n.function\n".to_string())).unwrap();
    assert_eq!(p.func.defs.len(), 0);
}

#[test]
fn labels_resolve_to_token_indices() {
    let src = ".raw\n.class\n.function\ndefun main 0 NULL\npushi 1\nlabel 4\npop\nendef\n";
    let p = make_ir(Scanner::from_string(src.to_string())).unwrap();
    let body = &p.func.defs[0].body;
    assert_eq!(body.tokens.len(), 3);
    assert_eq!(body.labels.get(&4), Some(&1));
    assert!(matches!(body.tokens[1], Token::Label(4)));
}

#[test]
fn missing_raw_marker_is_rejected() {
    let e = make_ir(Scanner::from_string(".class\n.function\n".to_string())).unwrap_err();
    assert!(matches!(
        e,
        BuildError::Expected { expected: ExpectedTok::SRaw, found: Some(_) }
    ));
}

#[test]
fn empty_input_is_rejected() {
    let e = make_ir(Scanner::from_string("".to_string())).unwrap_err();
    assert!(matches!(
        e,
        BuildError::Expected { expected: ExpectedTok::SRaw, found: None }
    ));
}

#[test]
fn missing_class_marker_is_rejected() {
    let e = make_ir(Scanner::from_string(".raw\n.function\n".to_string())).unwrap_err();
    assert!(matches!(
        e,
        BuildError::Expected { expected: ExpectedTok::SClass, found: Some(_) }
    ));
    assert_eq!(e.text(), "1: expected SClass, found SFn");
}

#[test]
fn missing_endef_is_rejected() {
    let src = ".raw\n.class\n.function\ndefun main 0 NULL\npushi 1\n";
    let e = make_ir(Scanner::from_string(src.to_string())).unwrap_err();
    assert!(matches!(
        e,
        BuildError::Expected { expected: ExpectedTok::Endef, found: None }
    ));
    assert_eq!(e.text(), "expected Endef, found EOF");
}

#[test]
fn scan_error_reaches_the_assembler() {
    let src = ".raw\n.class\n.function\ndefun main 0 NULL\nwhatever\nendef\n";
    let e = make_ir(Scanner::from_string(src.to_string())).unwrap_err();
    assert!(matches!(e, BuildError::Scan(_)));
}

#[test]
fn trailing_valid_tokens_are_ignored() {
    let src = ".raw\n.class\n.function\ndefun main 0 NULL\nendef\npop\n";
    assert!(make_ir(Scanner::from_string(src.to_string())).is_ok());
}

#[test]
fn trailing_garbage_in_lookahead_fails_the_build() {
    let src = ".raw\n.class\n.function\ndefun main 0 NULL\nendef\ngarbage\n";
    let e = make_ir(Scanner::from_string(src.to_string())).unwrap_err();
    assert!(matches!(e, BuildError::Scan(_)));
}

#[test]
fn type_words_map_to_kinds() {
    assert!(matches!(Type::from_string("int".to_string()), Type::TInt));
    assert!(matches!(Type::from_string("float".to_string()), Type::TFloat));
    assert!(matches!(Type::from_string("string".to_string()), Type::TString));
    assert!(matches!(Type::from_string("NULL".to_string()), Type::Void));
    match Type::from_string("Widget".to_string()) {
        Type::TClass(name) => assert_eq!(name, "Widget"),
        other => panic!("wrong type: {:?}", other),
    }
}

#[test]
fn parse_i32_accepts_signs_and_rejects_junk() {
    let chars = |s: &str| s.chars().collect::<Vec<char>>();
    assert_eq!(parse_i32(&chars("123")), Some(123));
    assert_eq!(parse_i32(&chars("-45")), Some(-45));
    assert_eq!(parse_i32(&chars("+7")), Some(7));
    assert_eq!(parse_i32(&chars("2147483647")), Some(i32::MAX));
    assert_eq!(parse_i32(&chars("-2147483648")), Some(i32::MIN));
    assert_eq!(parse_i32(&chars("2147483648")), None);
    assert_eq!(parse_i32(&chars("")), None);
    assert_eq!(parse_i32(&chars("-")), None);
    assert_eq!(parse_i32(&chars("1x")), None);
    assert_eq!(parse_i32(&chars("99999999999999999999")), None);
}

#[test]
fn parse_usize_rejects_negatives() {
    let chars = |s: &str| s.chars().collect::<Vec<char>>();
    assert_eq!(parse_usize(&chars("0")), Some(0));
    assert_eq!(parse_usize(&chars("+12")), Some(12));
    assert_eq!(parse_usize(&chars("-1")), None);
    assert_eq!(parse_usize(&chars("-0")), None);
    assert_eq!(parse_usize(&chars("")), None);
}

#[test]
fn render_i32_writes_decimal() {
    assert_eq!(render_i32(0), b"0".to_vec());
    assert_eq!(render_i32(120), b"120".to_vec());
    assert_eq!(render_i32(-5), b"-5".to_vec());
    assert_eq!(render_i32(i32::MIN), b"-2147483648".to_vec());
    assert_eq!(render_i32(i32::MAX), b"2147483647".to_vec());
}

#[test]
fn pushf_parses_decimal_floats() {
    let mut s = Scanner::from_string("pushf 1.5".to_string());
    match s.next().unwrap().token {
        Token::Pushf(bits) => assert_eq!(bits, 1.5f32.to_bits()),
        other => panic!("wrong token: {:?}", other),
    }
}

#[test]
fn unclosed_quote_ends_the_stream() {
    let mut s = Scanner::from_string("pop \"never closed".to_string());
    assert!(matches!(s.next().unwrap().token, Token::Pop));
    assert!(s.next().is_none());
    assert!(s.scan_error().is_none());
}

#[test]
fn crlf_line_ends_count_rows() {
    let mut s = Scanner::from_string("pop\r\ndup".to_string());
    let a = s.next().unwrap();
    let b = s.next().unwrap();
    assert_eq!(a.row, 0);
    assert_eq!(b.row, 1);
}

#[test]
fn empty_quoted_word_is_an_empty_string() {
    let mut s = Scanner::from_string("stores 0 0 \"\" pop".to_string());
    match s.next().unwrap().token {
        Token::Stores(_, text) => assert_eq!(text, ""),
        other => panic!("wrong token: {:?}", other),
    }
    assert!(matches!(s.next().unwrap().token, Token::Pop));
}

#[test]
fn comment_at_end_of_file_just_ends_the_stream() {
    let mut s = Scanner::from_string("pop ; no newline after this".to_string());
    assert!(matches!(s.next().unwrap().token, Token::Pop));
    assert!(s.next().is_none());
    assert!(s.scan_error().is_none());
}

#[test]
fn has_next_and_peek_do_not_consume() {
    let mut s = Scanner::from_string("pop".to_string());
    assert!(s.has_next());
    assert!(matches!(s.peek().unwrap().token, Token::Pop));
    assert!(matches!(s.peek().unwrap().token, Token::Pop));
    assert!(matches!(s.next().unwrap().token, Token::Pop));
    assert!(!s.has_next());
}
