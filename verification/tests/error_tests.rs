use lox_scanner::error::InterpreterError;
use lox_scanner::scanner::Scanner;
use lox_scanner::token::TokenType;

#[test]
fn local_error_renders_with_line_and_location() {
    let e = InterpreterError::new_local(3, "loc", "went wrong");
    assert!(e.is_local());
    assert_eq!(e.line, 3);
    assert_eq!(e.location, "loc");
    assert_eq!(e.message, "went wrong");
    assert_eq!(e.render(), "Interpreter Error: [line 3] Error loc: went wrong");
}

#[test]
fn local_error_with_empty_location() {
    let e = InterpreterError::new_local(1, "", "x");
    assert_eq!(e.render(), "Interpreter Error: [line 1] Error : x");
}

#[test]
fn local_error_renders_multi_digit_line() {
    let e = InterpreterError::new_local(120, "", "m");
    assert_eq!(e.render(), "Interpreter Error: [line 120] Error : m");
}

#[test]
fn global_error_renders_bare_message() {
    let e = InterpreterError::new("boom");
    assert!(!e.is_local());
    assert_eq!(e.line, 0);
    assert_eq!(e.location, "");
    assert_eq!(e.render(), "Interpreter Error: boom");
}

#[test]
fn token_to_string_shows_kind_lexeme_and_literal() {
    let mut s = Scanner::new("12 x \"a\"");
    let toks = s.scan_tokens().unwrap();
    assert_eq!(toks[0].token_type, TokenType::Number);
    assert_eq!(toks[0].to_string(), "Number 12 Number(12)");
    assert_eq!(toks[1].to_string(), "Identifier x None");
    assert_eq!(toks[2].to_string(), "Str \"a\" Str(\"a\")");
    assert_eq!(toks[3].to_string(), "EOF  None");
}

#[test]
fn token_to_string_escapes_string_payload() {
    let mut s = Scanner::new("\"a\nb\"");
    let toks = s.scan_tokens().unwrap();
    // The lexeme is shown raw; the payload is shown in debug-escaped form.
    assert_eq!(toks[0].to_string(), "Str \"a\nb\" Str(\"a\\nb\")");
}
