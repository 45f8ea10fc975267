//! The scanner: a single pass over the source buffer that classifies one
//! lexeme at a time, appends tokens, and collects a diagnostic for every
//! character that no rule accepts, never stopping early.
//!
//! Every public operation is specified against the recursive model in
//! `crate::model`: the scan result is proved to be exactly `spec_scan` of
//! the source text.

use vstd::prelude::*;
use vstd::string::{StrSliceExecFns, StringExecFns};

use crate::error::{InterpreterError, SpecError};
use crate::model::{
    comment_end, digits_end, ident_end, is_digit, is_ident_char, is_ident_start, keyword_kind,
    newline_count, number_end, peek_char, scan_one, scan_rest, spec_scan, string_body_end,
    eof_token,
};
use crate::token::{Literal, SpecLiteral, SpecToken, Token, TokenType};

verus! {

fn check_digit(c: char) -> (r: bool)
    ensures
        r == is_digit(c),
{
    let u: u32 = c as u32;
    48 <= u && u <= 57
}

fn check_ident_start(c: char) -> (r: bool)
    ensures
        r == is_ident_start(c),
{
    let u: u32 = c as u32;
    (65 <= u && u <= 90) || (97 <= u && u <= 122) || c == '_'
}

fn check_ident_char(c: char) -> (r: bool)
    ensures
        r == is_ident_char(c),
{
    check_ident_start(c) || check_digit(c)
}

/// The keyword table lookup: the exact, case-sensitive spelling of `text`
/// against the fixed keyword set.
pub fn lookup_keyword(text: &String) -> (r: Option<TokenType>)
    ensures
        r == keyword_kind(text@),
{
    if *text == "and".to_owned() {
        Some(TokenType::And)
    } else if *text == "class".to_owned() {
        Some(TokenType::Class)
    } else if *text == "else".to_owned() {
        Some(TokenType::Else)
    } else if *text == "false".to_owned() {
        Some(TokenType::False)
    } else if *text == "for".to_owned() {
        Some(TokenType::For)
    } else if *text == "fun".to_owned() {
        Some(TokenType::Fun)
    } else if *text == "if".to_owned() {
        Some(TokenType::If)
    } else if *text == "nil".to_owned() {
        Some(TokenType::Nil)
    } else if *text == "or".to_owned() {
        Some(TokenType::Or)
    } else if *text == "print".to_owned() {
        Some(TokenType::Print)
    } else if *text == "return".to_owned() {
        Some(TokenType::Return)
    } else if *text == "super".to_owned() {
        Some(TokenType::Super)
    } else if *text == "this".to_owned() {
        Some(TokenType::This)
    } else if *text == "true".to_owned() {
        Some(TokenType::True)
    } else if *text == "var".to_owned() {
        Some(TokenType::Var)
    } else if *text == "while".to_owned() {
        Some(TokenType::While)
    } else {
        None
    }
}

/// The scanner's cursor state: the source text (immutable during the
/// scan), the tokens and diagnostics built so far, the start of the lexeme
/// being matched, the next unread position, and the 1-based line count.
pub struct Scanner {
    source: String,
    tokens: Vec<Token>,
    errors: Vec<InterpreterError>,
    start: usize,
    current: usize,
    line: usize,
}

impl Scanner {
    /// The source text being scanned.
    pub closed spec fn src(&self) -> Seq<char> {
        self.source@
    }

    /// The models of the tokens built so far.
    pub closed spec fn toks(&self) -> Seq<SpecToken> {
        self.tokens@.map_values(|t: Token| t@)
    }

    /// The models of the diagnostics collected so far.
    pub closed spec fn errs(&self) -> Seq<SpecError> {
        self.errors@.map_values(|e: InterpreterError| e@)
    }

    /// Freshly constructed over its source, nothing scanned yet.
    pub closed spec fn fresh(&self) -> bool {
        &&& self.start == 0
        &&& self.current == 0
        &&& self.line == 1
        &&& self.tokens@.len() == 0
        &&& self.errors@.len() == 0
        &&& self.src().len() < usize::MAX
    }

    /// The cursor invariant: `start <= current <= length`, the line count
    /// is 1-based and can only have grown by consumed characters.
    spec fn wf(&self) -> bool {
        &&& self.start <= self.current <= self.src().len()
        &&& self.src().len() < usize::MAX
        &&& 1 <= self.line
        &&& self.line <= 1 + self.current
    }

    /// A fresh scanner over `source`.  The length bound is a machine
    /// limit: the line counter must stay within `usize`.
    pub fn new(source: &str) -> (r: Self)
        requires
            source@.len() < usize::MAX,
        ensures
            r.src() == source@,
            r.fresh(),
    {
        Scanner {
            source: source.to_owned(),
            tokens: Vec::new(),
            errors: Vec::new(),
            start: 0,
            current: 0,
            line: 1,
        }
    }

    fn is_at_end(&self) -> (r: bool)
        ensures
            r == (self.current >= self.src().len()),
    {
        self.current >= self.source.as_str().unicode_len()
    }

    fn advance(&mut self) -> (c: char)
        requires
            old(self).current < old(self).src().len(),
            old(self).current < usize::MAX,
        ensures
            c == old(self).src()[old(self).current as int],
            final(self).current == old(self).current + 1,
            final(self).source == old(self).source,
            final(self).tokens == old(self).tokens,
            final(self).errors == old(self).errors,
            final(self).start == old(self).start,
            final(self).line == old(self).line,
    {
        let next = self.source.as_str().get_char(self.current);
        self.current = self.current + 1;
        next
    }

    fn peek(&self) -> (c: char)
        ensures
            c == peek_char(self.src(), self.current as int),
    {
        if self.is_at_end() {
            '\0'
        } else {
            self.source.as_str().get_char(self.current)
        }
    }

    fn peek_next(&self) -> (c: char)
        requires
            self.current < usize::MAX,
        ensures
            c == peek_char(self.src(), self.current as int + 1),
    {
        if self.current + 1 >= self.source.as_str().unicode_len() {
            '\0'
        } else {
            self.source.as_str().get_char(self.current + 1)
        }
    }

    fn matches(&mut self, expected: char) -> (r: bool)
        requires
            old(self).current < usize::MAX,
        ensures
            r == (old(self).current < old(self).src().len() && old(self).src()[old(
                self,
            ).current as int] == expected),
            final(self).current == old(self).current + if r {
                1int
            } else {
                0int
            },
            final(self).source == old(self).source,
            final(self).tokens == old(self).tokens,
            final(self).errors == old(self).errors,
            final(self).start == old(self).start,
            final(self).line == old(self).line,
    {
        if self.is_at_end() {
            return false;
        }
        if self.source.as_str().get_char(self.current) != expected {
            return false;
        }
        self.current = self.current + 1;
        true
    }

    fn add_token(&mut self, token_type: TokenType, literal: Literal)
        requires
            old(self).start <= old(self).current <= old(self).src().len(),
        ensures
            final(self).toks() == old(self).toks().push(
                SpecToken {
                    token_type,
                    lexeme: old(self).src().subrange(
                        old(self).start as int,
                        old(self).current as int,
                    ),
                    literal: literal@,
                    line: old(self).line as nat,
                },
            ),
            final(self).source == old(self).source,
            final(self).errors == old(self).errors,
            final(self).start == old(self).start,
            final(self).current == old(self).current,
            final(self).line == old(self).line,
    {
        let text: String = self.source.as_str().substring_char(self.start, self.current).to_owned();
        let t = Token::new(token_type, text, literal, self.line);
        self.tokens.push(t);
        proof {
            assert(self.toks() =~= old(self).toks().push(t@));
        }
    }

    fn string(&mut self) -> (r: Result<(), InterpreterError>)
        requires
            old(self).wf(),
            old(self).start + 1 == old(self).current,
        ensures
            final(self).wf(),
            final(self).src() == old(self).src(),
            final(self).start == old(self).start,
            final(self).errs() == old(self).errs(),
            ({
                let src = old(self).src();
                let i = old(self).start as int;
                let be = string_body_end(src, i + 1);
                let line2 = old(self).line as nat + newline_count(src, i + 1, be);
                &&& final(self).line as nat == line2
                &&& if be >= src.len() {
                    &&& final(self).current as int == be
                    &&& final(self).toks() == old(self).toks()
                    &&& r matches Err(e) && e@ == (SpecError {
                        line: line2,
                        location: Seq::empty(),
                        message: "Unterminated string."@,
                        local: true,
                    })
                } else {
                    &&& final(self).current as int == be + 1
                    &&& final(self).toks() == old(self).toks().push(
                        SpecToken {
                            token_type: TokenType::Str,
                            lexeme: src.subrange(i, be + 1),
                            literal: SpecLiteral::Str(src.subrange(i + 1, be)),
                            line: old(self).line as nat,
                        },
                    )
                    &&& r matches Ok(_)
                }
            }),
    {
        let ghost src = old(self).src();
        let ghost b0: int = old(self).current as int;
        let ghost l0: nat = old(self).line as nat;
        // The token is anchored at the line of its first character, the
        // opening quote; the loop below advances the line count past any
        // newlines the string body crosses.
        let line_start = self.line;
        while self.peek() != '"' && !self.is_at_end()
            invariant
                self.wf(),
                self.src() == src,
                self.source == old(self).source,
                self.tokens == old(self).tokens,
                self.errors == old(self).errors,
                self.start == old(self).start,
                b0 <= self.current as int <= src.len(),
                string_body_end(src, b0) == string_body_end(src, self.current as int),
                self.line as nat == l0 + newline_count(src, b0, self.current as int),
            decreases src.len() - self.current,
        {
            if self.peek() == '\n' {
                self.line = self.line + 1;
            }
            self.advance();
        }
        if self.is_at_end() {
            proof {
                reveal_strlit("");
                assert(""@ =~= Seq::<char>::empty());
            }
            return Err(InterpreterError::new_local(self.line, "", "Unterminated string."));
        }
        self.advance();
        let text = self.source.as_str().substring_char(self.start, self.current).to_owned();
        let value = self.source.as_str().substring_char(self.start + 1, self.current - 1)
            .to_owned();
        let t = Token::new(TokenType::Str, text, Literal::Str(value), line_start);
        self.tokens.push(t);
        proof {
            assert(self.toks() =~= old(self).toks().push(t@));
        }
        Ok(())
    }

    fn number(&mut self)
        requires
            old(self).wf(),
            old(self).start < old(self).current,
        ensures
            final(self).wf(),
            final(self).src() == old(self).src(),
            final(self).start == old(self).start,
            final(self).line == old(self).line,
            final(self).errs() == old(self).errs(),
            final(self).current as int == number_end(old(self).src(), old(self).current as int),
            final(self).toks() == old(self).toks().push(
                SpecToken {
                    token_type: TokenType::Number,
                    lexeme: old(self).src().subrange(
                        old(self).start as int,
                        number_end(old(self).src(), old(self).current as int),
                    ),
                    literal: SpecLiteral::Number(
                        old(self).src().subrange(
                            old(self).start as int,
                            number_end(old(self).src(), old(self).current as int),
                        ),
                    ),
                    line: old(self).line as nat,
                },
            ),
    {
        let ghost src = old(self).src();
        let ghost c0: int = old(self).current as int;
        while check_digit(self.peek())
            invariant
                self.wf(),
                self.src() == src,
                self.source == old(self).source,
                self.tokens == old(self).tokens,
                self.errors == old(self).errors,
                self.start == old(self).start,
                self.line == old(self).line,
                c0 <= self.current as int,
                digits_end(src, c0) == digits_end(src, self.current as int),
            decreases src.len() - self.current,
        {
            self.advance();
        }
        if self.peek() == '.' && check_digit(self.peek_next()) {
            self.advance();
            let ghost c1: int = self.current as int;
            while check_digit(self.peek())
                invariant
                    self.wf(),
                    self.src() == src,
                    self.source == old(self).source,
                    self.tokens == old(self).tokens,
                    self.errors == old(self).errors,
                    self.start == old(self).start,
                    self.line == old(self).line,
                    c1 <= self.current as int,
                    digits_end(src, c1) == digits_end(src, self.current as int),
                decreases src.len() - self.current,
            {
                self.advance();
            }
        }
        let text = self.source.as_str().substring_char(self.start, self.current).to_owned();
        self.add_token(TokenType::Number, Literal::Number(text));
    }

    fn identifier(&mut self)
        requires
            old(self).wf(),
            old(self).start < old(self).current,
        ensures
            final(self).wf(),
            final(self).src() == old(self).src(),
            final(self).start == old(self).start,
            final(self).line == old(self).line,
            final(self).errs() == old(self).errs(),
            final(self).current as int == ident_end(old(self).src(), old(self).current as int),
            ({
                let text = old(self).src().subrange(
                    old(self).start as int,
                    ident_end(old(self).src(), old(self).current as int),
                );
                final(self).toks() == old(self).toks().push(
                    SpecToken {
                        token_type: match keyword_kind(text) {
                            Some(k) => k,
                            None => TokenType::Identifier,
                        },
                        lexeme: text,
                        literal: SpecLiteral::Absent,
                        line: old(self).line as nat,
                    },
                )
            }),
    {
        let ghost src = old(self).src();
        let ghost c0: int = old(self).current as int;
        while check_ident_char(self.peek())
            invariant
                self.wf(),
                self.src() == src,
                self.source == old(self).source,
                self.tokens == old(self).tokens,
                self.errors == old(self).errors,
                self.start == old(self).start,
                self.line == old(self).line,
                c0 <= self.current as int,
                ident_end(src, c0) == ident_end(src, self.current as int),
            decreases src.len() - self.current,
        {
            self.advance();
        }
        let text = self.source.as_str().substring_char(self.start, self.current).to_owned();
        let token_type: TokenType = match lookup_keyword(&text) {
            Some(k) => k,
            None => TokenType::Identifier,
        };
        self.add_token(token_type, Literal::Absent);
    }

    fn scan_token(&mut self) -> (r: Result<(), InterpreterError>)
        requires
            old(self).wf(),
            old(self).start == old(self).current,
            old(self).current < old(self).src().len(),
        ensures
            final(self).wf(),
            final(self).src() == old(self).src(),
            final(self).start == old(self).start,
            final(self).errs() == old(self).errs(),
            ({
                let step = scan_one(old(self).src(), old(self).current as int, old(self).line as nat);
                &&& final(self).current as int == step.next
                &&& final(self).line as nat == step.line
                &&& (step.token matches Some(t) ==> final(self).toks() == old(self).toks().push(t))
                &&& (step.token is None ==> final(self).toks() == old(self).toks())
                &&& (r matches Ok(_) <==> step.error is None)
                &&& (r matches Err(e) ==> step.error == Some(e@))
            }),
    {
        let ghost src = old(self).src();
        let ghost i: int = old(self).current as int;
        let ghost l0: nat = old(self).line as nat;
        let ghost step = scan_one(src, i, l0);
        let c = self.advance();
        if c == '(' {
            self.add_token(TokenType::LeftParen, Literal::Absent);
            Ok(())
        } else if c == ')' {
            self.add_token(TokenType::RightParen, Literal::Absent);
            Ok(())
        } else if c == '{' {
            self.add_token(TokenType::LeftBrace, Literal::Absent);
            Ok(())
        } else if c == '}' {
            self.add_token(TokenType::RightBrace, Literal::Absent);
            Ok(())
        } else if c == ',' {
            self.add_token(TokenType::Comma, Literal::Absent);
            Ok(())
        } else if c == '.' {
            if check_digit(self.peek()) {
                self.number();
            } else {
                self.add_token(TokenType::Dot, Literal::Absent);
            }
            Ok(())
        } else if c == '-' {
            self.add_token(TokenType::Minus, Literal::Absent);
            Ok(())
        } else if c == '+' {
            self.add_token(TokenType::Plus, Literal::Absent);
            Ok(())
        } else if c == ';' {
            self.add_token(TokenType::Semicolon, Literal::Absent);
            Ok(())
        } else if c == '*' {
            self.add_token(TokenType::Star, Literal::Absent);
            Ok(())
        } else if c == '!' {
            if self.matches('=') {
                self.add_token(TokenType::BangEqual, Literal::Absent);
            } else {
                self.add_token(TokenType::Bang, Literal::Absent);
            }
            Ok(())
        } else if c == '=' {
            if self.matches('=') {
                self.add_token(TokenType::EqualEqual, Literal::Absent);
            } else {
                self.add_token(TokenType::Equal, Literal::Absent);
            }
            Ok(())
        } else if c == '<' {
            if self.matches('=') {
                self.add_token(TokenType::LessEqual, Literal::Absent);
            } else {
                self.add_token(TokenType::Less, Literal::Absent);
            }
            Ok(())
        } else if c == '>' {
            if self.matches('=') {
                self.add_token(TokenType::GreaterEqual, Literal::Absent);
            } else {
                self.add_token(TokenType::Greater, Literal::Absent);
            }
            Ok(())
        } else if c == '/' {
            if self.matches('/') {
                while self.peek() != '\n' && !self.is_at_end()
                    invariant
                        self.wf(),
                        self.src() == src,
                        self.source == old(self).source,
                        self.tokens == old(self).tokens,
                        self.errors == old(self).errors,
                        self.start == old(self).start,
                        self.line == old(self).line,
                        i + 2 <= self.current as int <= src.len(),
                        comment_end(src, i + 2) == comment_end(src, self.current as int),
                    decreases src.len() - self.current,
                {
                    self.advance();
                }
            } else {
                self.add_token(TokenType::Slash, Literal::Absent);
            }
            Ok(())
        } else if c == ' ' || c == '\r' || c == '\t' {
            Ok(())
        } else if c == '\n' {
            self.line = self.line + 1;
            Ok(())
        } else if c == '"' {
            self.string()
        } else if check_digit(c) {
            self.number();
            Ok(())
        } else if check_ident_start(c) {
            self.identifier();
            Ok(())
        } else {
            let ch = self.source.as_str().substring_char(self.start, self.current);
            let escaped = crate::escape::escape_char_text(ch);
            let mut msg = "Unexpected character: '".to_owned();
            msg.append(escaped.as_str());
            msg.append("'");
            proof {
                reveal_strlit("");
                assert(""@ =~= Seq::<char>::empty());
                assert(src.subrange(i, i + 1) =~= seq![src[i]]);
            }
            Err(InterpreterError::new_local(self.line, "", msg.as_str()))
        }
    }

    /// Scan the whole source: consume every character, collect a
    /// diagnostic for each lexical problem without stopping, append the
    /// end-marker, and return the token sequence exactly when no problem
    /// occurred, else the single global summary error.
    pub fn scan_tokens(&mut self) -> (r: Result<&Vec<Token>, InterpreterError>)
        requires
            old(self).fresh(),
        ensures
            final(self).src() == old(self).src(),
            final(self).toks() == spec_scan(old(self).src()).0,
            final(self).errs() == spec_scan(old(self).src()).1,
            (r matches Ok(toks) ==> toks@.map_values(|t: Token| t@) == spec_scan(
                old(self).src(),
            ).0),
            (r matches Ok(_) <==> spec_scan(old(self).src()).1.len() == 0),
            (r matches Err(e) ==> e@ == (SpecError {
                line: 0,
                location: Seq::empty(),
                message: "Error(s) encountered while scanning."@,
                local: false,
            })),
    {
        let ghost src = old(self).src();
        let mut had_error = false;
        proof {
            assert(self.toks() =~= Seq::<SpecToken>::empty());
            assert(self.errs() =~= Seq::<SpecError>::empty());
            assert(self.toks() + scan_rest(src, 0, 1).tokens =~= scan_rest(src, 0, 1).tokens);
            assert(self.errs() + scan_rest(src, 0, 1).errors =~= scan_rest(src, 0, 1).errors);
        }
        while !self.is_at_end()
            invariant
                self.wf(),
                self.src() == src,
                self.toks() + scan_rest(src, self.current as int, self.line as nat).tokens
                    == scan_rest(src, 0, 1).tokens,
                self.errs() + scan_rest(src, self.current as int, self.line as nat).errors
                    == scan_rest(src, 0, 1).errors,
                scan_rest(src, self.current as int, self.line as nat).line == scan_rest(
                    src,
                    0,
                    1,
                ).line,
                had_error == (self.errs().len() > 0),
            decreases src.len() - self.current,
        {
            let ghost i: int = self.current as int;
            let ghost l0: nat = self.line as nat;
            let ghost toks0 = self.toks();
            let ghost errs0 = self.errs();
            let ghost step = scan_one(src, i, l0);
            proof {
                crate::model::lemma_scan_one_bounds(src, i, l0);
            }
            self.start = self.current;
            let res = self.scan_token();
            match res {
                Ok(_) => {
                    proof {
                        assert(crate::model::opt_seq(step.error) =~= Seq::<SpecError>::empty());
                        assert(errs0 + crate::model::opt_seq(step.error) =~= errs0);
                    }
                },
                Err(e) => {
                    self.errors.push(e);
                    had_error = true;
                    proof {
                        assert(self.errs() =~= errs0.push(e@));
                        assert(errs0.push(e@) =~= errs0 + crate::model::opt_seq(step.error));
                    }
                },
            }
            proof {
                assert(self.toks() =~= toks0 + crate::model::opt_seq(step.token));
                assert(scan_rest(src, i, l0).tokens == crate::model::opt_seq(step.token)
                    + scan_rest(src, step.next, step.line).tokens);
                assert(self.toks() + scan_rest(src, self.current as int, self.line as nat).tokens
                    =~= (toks0 + crate::model::opt_seq(step.token)) + scan_rest(
                    src,
                    step.next,
                    step.line,
                ).tokens);
                assert((toks0 + crate::model::opt_seq(step.token)) + scan_rest(
                    src,
                    step.next,
                    step.line,
                ).tokens =~= toks0 + scan_rest(src, i, l0).tokens);
                assert(self.errs() + scan_rest(src, self.current as int, self.line as nat).errors
                    =~= (errs0 + crate::model::opt_seq(step.error)) + scan_rest(
                    src,
                    step.next,
                    step.line,
                ).errors);
                assert((errs0 + crate::model::opt_seq(step.error)) + scan_rest(
                    src,
                    step.next,
                    step.line,
                ).errors =~= errs0 + scan_rest(src, i, l0).errors);
            }
        }
        proof {
            assert(self.toks() + scan_rest(src, self.current as int, self.line as nat).tokens
                =~= self.toks());
            assert(self.errs() + scan_rest(src, self.current as int, self.line as nat).errors
                =~= self.errs());
        }
        let ghost line_end: nat = self.line as nat;
        self.tokens.push(Token::new(TokenType::EOF, String::new(), Literal::Absent, self.line));
        proof {
            assert(self.toks() =~= scan_rest(src, 0, 1).tokens.push(eof_token(line_end)));
            assert(eof_token(line_end) == eof_token(scan_rest(src, 0, 1).line));
        }
        if !had_error {
            Ok(&self.tokens)
        } else {
            Err(InterpreterError::new("Error(s) encountered while scanning."))
        }
    }

    /// The tokens built so far: after a successful scan, the full token
    /// sequence; after a failed one, every token that recovery still
    /// computed, end-marker included.
    pub fn tokens(&self) -> (r: &Vec<Token>)
        ensures
            r@.map_values(|t: Token| t@) == self.toks(),
    {
        &self.tokens
    }

    /// The diagnostics collected so far, in discovery order.
    pub fn errors(&self) -> (r: &Vec<InterpreterError>)
        ensures
            r@.map_values(|e: InterpreterError| e@) == self.errs(),
    {
        &self.errors
    }
}

} // verus!
