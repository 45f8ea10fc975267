use lox_scanner::scanner::{lookup_keyword, Scanner};
use lox_scanner::token::{Literal, Token, TokenType};

fn scan_ok(src: &str) -> Vec<Token> {
    let mut s = Scanner::new(src);
    s.scan_tokens().expect("scan should succeed").clone()
}

#[test]
fn empty_source_yields_end_marker_only() {
    let toks = scan_ok("");
    assert_eq!(toks.len(), 1);
    assert_eq!(toks[0].token_type, TokenType::EOF);
    assert_eq!(toks[0].lexeme, "");
    assert_eq!(toks[0].literal, Literal::Absent);
    assert_eq!(toks[0].line, 1);
}

#[test]
fn punctuation_sequence() {
    let toks = scan_ok("+-*");
    assert_eq!(toks.len(), 4);
    assert_eq!(toks[0].token_type, TokenType::Plus);
    assert_eq!(toks[0].lexeme, "+");
    assert_eq!(toks[1].token_type, TokenType::Minus);
    assert_eq!(toks[1].lexeme, "-");
    assert_eq!(toks[2].token_type, TokenType::Star);
    assert_eq!(toks[2].lexeme, "*");
    assert_eq!(toks[3].token_type, TokenType::EOF);
    for t in &toks {
        assert_eq!(t.line, 1);
    }
}

#[test]
fn bang_equal_is_one_token() {
    let toks = scan_ok("!=");
    assert_eq!(toks.len(), 2);
    assert_eq!(toks[0].token_type, TokenType::BangEqual);
    assert_eq!(toks[0].lexeme, "!=");
    assert_eq!(toks[1].token_type, TokenType::EOF);
}

#[test]
fn bang_alone_is_bang() {
    let toks = scan_ok("!");
    assert_eq!(toks.len(), 2);
    assert_eq!(toks[0].token_type, TokenType::Bang);
    assert_eq!(toks[0].lexeme, "!");
}

#[test]
fn two_character_operators() {
    let toks = scan_ok("== <= >= != = < > !");
    let kinds: Vec<TokenType> = toks.iter().map(|t| t.token_type).collect();
    assert_eq!(
        kinds,
        vec![
            TokenType::EqualEqual,
            TokenType::LessEqual,
            TokenType::GreaterEqual,
            TokenType::BangEqual,
            TokenType::Equal,
            TokenType::Less,
            TokenType::Greater,
            TokenType::Bang,
            TokenType::EOF,
        ]
    );
}

#[test]
fn multi_line_string_counts_lines_and_strips_quotes() {
    let toks = scan_ok("\"ab\ncd\"\nx");
    assert_eq!(toks.len(), 3);
    assert_eq!(toks[0].token_type, TokenType::Str);
    assert_eq!(toks[0].lexeme, "\"ab\ncd\"");
    assert_eq!(toks[0].literal, Literal::Str("ab\ncd".to_string()));
    // The string token is anchored at its first character, the opening
    // quote; the newline it spans counts for everything after it.
    assert_eq!(toks[0].line, 1);
    assert_eq!(toks[1].token_type, TokenType::Identifier);
    assert_eq!(toks[1].lexeme, "x");
    assert_eq!(toks[1].line, 3);
    assert_eq!(toks[2].token_type, TokenType::EOF);
    assert_eq!(toks[2].line, 3);
}

#[test]
fn number_with_fraction() {
    let toks = scan_ok("123.45");
    assert_eq!(toks.len(), 2);
    assert_eq!(toks[0].token_type, TokenType::Number);
    assert_eq!(toks[0].lexeme, "123.45");
    match &toks[0].literal {
        Literal::Number(text) => {
            assert_eq!(text, "123.45");
            assert_eq!(text.parse::<f64>().unwrap(), 123.45);
        }
        other => panic!("expected a number literal, got {:?}", other),
    }
}

#[test]
fn leading_dot_number() {
    let toks = scan_ok(".5");
    assert_eq!(toks.len(), 2);
    assert_eq!(toks[0].token_type, TokenType::Number);
    assert_eq!(toks[0].lexeme, ".5");
    match &toks[0].literal {
        Literal::Number(text) => {
            assert_eq!(text.parse::<f64>().unwrap(), 0.5);
        }
        other => panic!("expected a number literal, got {:?}", other),
    }
}

#[test]
fn trailing_dot_is_separate_token() {
    let toks = scan_ok("5.");
    assert_eq!(toks.len(), 3);
    assert_eq!(toks[0].token_type, TokenType::Number);
    assert_eq!(toks[0].lexeme, "5");
    assert_eq!(toks[1].token_type, TokenType::Dot);
    assert_eq!(toks[1].lexeme, ".");
    assert_eq!(toks[2].token_type, TokenType::EOF);
}

#[test]
fn leading_dot_number_consumes_one_more_dot_run() {
    // The number rule, entered from a leading dot, accepts one further
    // dot-and-digit run: the matched text is kept as the payload as-is.
    let toks = scan_ok(".5.6");
    assert_eq!(toks.len(), 2);
    assert_eq!(toks[0].token_type, TokenType::Number);
    assert_eq!(toks[0].lexeme, ".5.6");
}

#[test]
fn keyword_is_not_identifier() {
    let toks = scan_ok("for");
    assert_eq!(toks.len(), 2);
    assert_eq!(toks[0].token_type, TokenType::For);
    assert_eq!(toks[0].lexeme, "for");
    assert_eq!(toks[0].literal, Literal::Absent);
}

#[test]
fn keyword_prefix_is_identifier() {
    let toks = scan_ok("forx");
    assert_eq!(toks.len(), 2);
    assert_eq!(toks[0].token_type, TokenType::Identifier);
    assert_eq!(toks[0].lexeme, "forx");
}

#[test]
fn all_keywords_scan_to_their_kinds() {
    let cases = vec![
        ("and", TokenType::And),
        ("class", TokenType::Class),
        ("else", TokenType::Else),
        ("false", TokenType::False),
        ("for", TokenType::For),
        ("fun", TokenType::Fun),
        ("if", TokenType::If),
        ("nil", TokenType::Nil),
        ("or", TokenType::Or),
        ("print", TokenType::Print),
        ("return", TokenType::Return),
        ("super", TokenType::Super),
        ("this", TokenType::This),
        ("true", TokenType::True),
        ("var", TokenType::Var),
        ("while", TokenType::While),
    ];
    for (word, kind) in cases {
        let toks = scan_ok(word);
        assert_eq!(toks[0].token_type, kind, "keyword {}", word);
        assert_eq!(toks[0].lexeme, word);
    }
}

#[test]
fn lookup_keyword_exact_match_only() {
    assert_eq!(lookup_keyword(&"and".to_string()), Some(TokenType::And));
    assert_eq!(lookup_keyword(&"And".to_string()), None);
    assert_eq!(lookup_keyword(&"andx".to_string()), None);
    assert_eq!(lookup_keyword(&"".to_string()), None);
}

#[test]
fn unterminated_string_fails_with_one_diagnostic() {
    let mut s = Scanner::new("\"unterminated");
    let r = s.scan_tokens();
    assert!(r.is_err());
    assert_eq!(s.errors().len(), 1);
    let e = &s.errors()[0];
    assert!(e.is_local());
    assert_eq!(e.message, "Unterminated string.");
    assert_eq!(e.line, 1);
    // No token was emitted for the broken string: only the end-marker.
    assert_eq!(s.tokens().len(), 1);
    assert_eq!(s.tokens()[0].token_type, TokenType::EOF);
}

#[test]
fn recovery_continues_past_bad_character() {
    let mut s = Scanner::new("@ 1");
    let r = s.scan_tokens();
    assert!(r.is_err());
    assert_eq!(s.errors().len(), 1);
    let e = &s.errors()[0];
    assert!(e.is_local());
    assert_eq!(e.message, "Unexpected character: '@'");
    assert_eq!(e.line, 1);
    // The valid tokens after the bad character were still computed.
    let toks = s.tokens();
    assert_eq!(toks.len(), 2);
    assert_eq!(toks[0].token_type, TokenType::Number);
    assert_eq!(toks[0].lexeme, "1");
    assert_eq!(toks[1].token_type, TokenType::EOF);
}

#[test]
fn aggregate_error_is_global_summary() {
    let mut s = Scanner::new("@");
    let e = s.scan_tokens().unwrap_err();
    assert!(!e.is_local());
    assert_eq!(e.line, 0);
    assert_eq!(e.location, "");
    assert_eq!(e.message, "Error(s) encountered while scanning.");
    assert_eq!(e.render(), "Interpreter Error: Error(s) encountered while scanning.");
}

#[test]
fn unexpected_character_is_line_anchored() {
    let mut s = Scanner::new("\n\n@");
    assert!(s.scan_tokens().is_err());
    assert_eq!(s.errors().len(), 1);
    assert_eq!(s.errors()[0].line, 3);
}

#[test]
fn unexpected_backslash_is_escaped_in_message() {
    let mut s = Scanner::new("\\");
    assert!(s.scan_tokens().is_err());
    assert_eq!(s.errors()[0].message, "Unexpected character: '\\\\'");
}

#[test]
fn unexpected_single_quote_is_escaped_in_message() {
    let mut s = Scanner::new("'");
    assert!(s.scan_tokens().is_err());
    assert_eq!(s.errors()[0].message, "Unexpected character: '\\''");
}

#[test]
fn unexpected_control_characters_use_unicode_escapes() {
    let mut s = Scanner::new("\u{1}");
    assert!(s.scan_tokens().is_err());
    assert_eq!(s.errors()[0].message, "Unexpected character: '\\u{1}'");

    let mut s = Scanner::new("\u{7f}");
    assert!(s.scan_tokens().is_err());
    assert_eq!(s.errors()[0].message, "Unexpected character: '\\u{7f}'");

    let mut s = Scanner::new("\0");
    assert!(s.scan_tokens().is_err());
    assert_eq!(s.errors()[0].message, "Unexpected character: '\\0'");
}

#[test]
fn line_comment_emits_no_token() {
    let toks = scan_ok("1 // a comment, + - * ignored\n2");
    assert_eq!(toks.len(), 3);
    assert_eq!(toks[0].token_type, TokenType::Number);
    assert_eq!(toks[0].lexeme, "1");
    assert_eq!(toks[0].line, 1);
    assert_eq!(toks[1].token_type, TokenType::Number);
    assert_eq!(toks[1].lexeme, "2");
    assert_eq!(toks[1].line, 2);
}

#[test]
fn single_slash_is_a_token() {
    let toks = scan_ok("a/b");
    assert_eq!(toks.len(), 4);
    assert_eq!(toks[0].token_type, TokenType::Identifier);
    assert_eq!(toks[1].token_type, TokenType::Slash);
    assert_eq!(toks[1].lexeme, "/");
    assert_eq!(toks[2].token_type, TokenType::Identifier);
}

#[test]
fn whitespace_is_skipped() {
    let toks = scan_ok(" \t\r+");
    assert_eq!(toks.len(), 2);
    assert_eq!(toks[0].token_type, TokenType::Plus);
    assert_eq!(toks[0].line, 1);
}

#[test]
fn newline_increments_line() {
    let toks = scan_ok("+\n-");
    assert_eq!(toks[0].token_type, TokenType::Plus);
    assert_eq!(toks[0].line, 1);
    assert_eq!(toks[1].token_type, TokenType::Minus);
    assert_eq!(toks[1].line, 2);
    assert_eq!(toks[2].token_type, TokenType::EOF);
    assert_eq!(toks[2].line, 2);
}

#[test]
fn end_marker_is_last_and_unique() {
    for src in ["", "+-*", "var x = 1;", "\"s\" 12 foo // c"] {
        let toks = scan_ok(src);
        let last = toks.last().unwrap();
        assert_eq!(last.token_type, TokenType::EOF);
        assert_eq!(last.lexeme, "");
        for t in &toks[..toks.len() - 1] {
            assert!(t.token_type != TokenType::EOF);
            assert!(!t.lexeme.is_empty());
        }
    }
}

#[test]
fn rescanning_is_idempotent() {
    let src = "var answer = 41.5 + one; // trailing\n\"two\nlines\" !=";
    let first = scan_ok(src);
    let second = scan_ok(src);
    assert_eq!(first, second);
}
