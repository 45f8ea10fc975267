//! The mathematical model of scanning: a recursive specification that maps a
//! source text (a sequence of characters) to the token sequence and the
//! diagnostics the scanner produces, together with the laws proved about it.

use vstd::prelude::*;
use crate::error::SpecError;
use crate::escape::char_debug_text;
use crate::token::{SpecLiteral, SpecToken, TokenType};

verus! {

/// Decimal digit, as the grammar defines it (ASCII only).
pub open spec fn is_digit(c: char) -> bool {
    ('0' as u32) <= (c as u32) && (c as u32) <= ('9' as u32)
}

/// First character of an identifier: an ASCII letter or an underscore.
pub open spec fn is_ident_start(c: char) -> bool {
    (('A' as u32) <= (c as u32) && (c as u32) <= ('Z' as u32)) || (('a' as u32) <= (c as u32)
        && (c as u32) <= ('z' as u32)) || c == '_'
}

/// Continuation character of an identifier: a letter, a digit or an
/// underscore.
pub open spec fn is_ident_char(c: char) -> bool {
    is_ident_start(c) || is_digit(c)
}

/// The character at position `i`, or the NUL character when `i` is out of
/// range: what one-character lookahead sees.
pub open spec fn peek_char(src: Seq<char>, i: int) -> char {
    if 0 <= i < src.len() {
        src[i]
    } else {
        '\0'
    }
}

/// The fixed keyword table: the exact spellings that are keywords rather
/// than identifiers, each with its token category.
pub open spec fn keyword_kind(s: Seq<char>) -> Option<TokenType> {
    if s == "and"@ {
        Some(TokenType::And)
    } else if s == "class"@ {
        Some(TokenType::Class)
    } else if s == "else"@ {
        Some(TokenType::Else)
    } else if s == "false"@ {
        Some(TokenType::False)
    } else if s == "for"@ {
        Some(TokenType::For)
    } else if s == "fun"@ {
        Some(TokenType::Fun)
    } else if s == "if"@ {
        Some(TokenType::If)
    } else if s == "nil"@ {
        Some(TokenType::Nil)
    } else if s == "or"@ {
        Some(TokenType::Or)
    } else if s == "print"@ {
        Some(TokenType::Print)
    } else if s == "return"@ {
        Some(TokenType::Return)
    } else if s == "super"@ {
        Some(TokenType::Super)
    } else if s == "this"@ {
        Some(TokenType::This)
    } else if s == "true"@ {
        Some(TokenType::True)
    } else if s == "var"@ {
        Some(TokenType::Var)
    } else if s == "while"@ {
        Some(TokenType::While)
    } else {
        None
    }
}

/// The position right after the maximal run of decimal digits starting at
/// `i`: the first index at or after `i` that is the end of the input or
/// holds a non-digit.
pub open spec fn digits_end(src: Seq<char>, i: int) -> int
    decreases src.len() - i
        when 0 <= i <= src.len()
{
    if i >= src.len() {
        i
    } else if is_digit(src[i]) {
        digits_end(src, i + 1)
    } else {
        i
    }
}

/// The position right after the maximal run of identifier characters
/// starting at `i`.
pub open spec fn ident_end(src: Seq<char>, i: int) -> int
    decreases src.len() - i
        when 0 <= i <= src.len()
{
    if i >= src.len() {
        i
    } else if is_ident_char(src[i]) {
        ident_end(src, i + 1)
    } else {
        i
    }
}

/// The first index at or after `i` that ends a string body: it is the end
/// of the input or holds a closing quote.
pub open spec fn string_body_end(src: Seq<char>, i: int) -> int
    decreases src.len() - i
        when 0 <= i <= src.len()
{
    if i >= src.len() {
        i
    } else if src[i] == '"' {
        i
    } else {
        string_body_end(src, i + 1)
    }
}

/// The first index at or after `i` that ends a line comment: it is the end
/// of the input or holds a newline (the newline itself is not part of the
/// comment).
pub open spec fn comment_end(src: Seq<char>, i: int) -> int
    decreases src.len() - i
        when 0 <= i <= src.len()
{
    if i >= src.len() {
        i
    } else if src[i] == '\n' {
        i
    } else {
        comment_end(src, i + 1)
    }
}

/// How many newline characters `src` holds in the index range `[i, j)`.
pub open spec fn newline_count(src: Seq<char>, i: int, j: int) -> nat
    decreases j - i
        when i <= j
{
    if j <= i {
        0
    } else {
        newline_count(src, i, j - 1) + (if src[j - 1] == '\n' {
            1nat
        } else {
            0nat
        })
    }
}

/// Where the number-literal rule ends when its digit loop starts at `cur`:
/// a maximal digit run, then one more dot-and-digit run if a dot directly
/// followed by a digit comes next.
pub open spec fn number_end(src: Seq<char>, cur: int) -> int {
    let d1 = digits_end(src, cur);
    if d1 < src.len() && src[d1] == '.' && d1 + 1 < src.len() && is_digit(src[d1 + 1]) {
        digits_end(src, d1 + 1)
    } else {
        d1
    }
}

/// What classifying one lexeme does: the token emitted (if any), the
/// diagnostic raised (if any), the cursor position after the lexeme, and
/// the line after it.
pub struct SpecStep {
    pub token: Option<SpecToken>,
    pub error: Option<SpecError>,
    pub next: int,
    pub line: nat,
}

/// A step that emits one token whose lexeme is the `n` characters starting
/// at `i`, with no literal payload.
pub open spec fn punct_step(src: Seq<char>, i: int, line: nat, tt: TokenType, n: int) -> SpecStep {
    SpecStep {
        token: Some(
            SpecToken {
                token_type: tt,
                lexeme: src.subrange(i, i + n),
                literal: SpecLiteral::Absent,
                line,
            },
        ),
        error: None,
        next: i + n,
        line,
    }
}

/// One-character lookahead for the operators that may be followed by `=`:
/// the two-character variant is taken exactly when `=` comes next.
pub open spec fn operator_step(
    src: Seq<char>,
    i: int,
    line: nat,
    two: TokenType,
    one: TokenType,
) -> SpecStep {
    if i + 1 < src.len() && src[i + 1] == '=' {
        punct_step(src, i, line, two, 2)
    } else {
        punct_step(src, i, line, one, 1)
    }
}

/// A step that consumes up to `next` without emitting a token.
pub open spec fn skip_step(next: int, line: nat) -> SpecStep {
    SpecStep { token: None, error: None, next, line }
}

/// The number-literal rule, entered with the lexeme start at `start` and
/// the digit loop starting at `cur`.  The payload is the exact matched
/// text.
pub open spec fn number_step(src: Seq<char>, start: int, cur: int, line: nat) -> SpecStep {
    let end = number_end(src, cur);
    SpecStep {
        token: Some(
            SpecToken {
                token_type: TokenType::Number,
                lexeme: src.subrange(start, end),
                literal: SpecLiteral::Number(src.subrange(start, end)),
                line,
            },
        ),
        error: None,
        next: end,
        line,
    }
}

/// The string-literal rule, entered at the opening quote `i`.  Newlines
/// crossed by the string advance the line count for everything that
/// follows, but the string token itself is anchored at the line of its
/// first character, the opening quote.  An unterminated string is a
/// line-anchored diagnostic at the line reached by the end of the input,
/// and emits no token.  The lexeme keeps the quotes; the payload is the
/// text strictly between them.
pub open spec fn string_step(src: Seq<char>, i: int, line: nat) -> SpecStep {
    let body_end = string_body_end(src, i + 1);
    let line2 = line + newline_count(src, i + 1, body_end);
    if body_end >= src.len() {
        SpecStep {
            token: None,
            error: Some(
                SpecError {
                    line: line2,
                    location: Seq::empty(),
                    message: "Unterminated string."@,
                    local: true,
                },
            ),
            next: body_end,
            line: line2,
        }
    } else {
        SpecStep {
            token: Some(
                SpecToken {
                    token_type: TokenType::Str,
                    lexeme: src.subrange(i, body_end + 1),
                    literal: SpecLiteral::Str(src.subrange(i + 1, body_end)),
                    line,
                },
            ),
            error: None,
            next: body_end + 1,
            line: line2,
        }
    }
}

/// The identifier-or-keyword rule, entered at `i`: a maximal identifier
/// run, looked up in the keyword table by exact spelling.
pub open spec fn ident_step(src: Seq<char>, i: int, line: nat) -> SpecStep {
    let end = ident_end(src, i + 1);
    let text = src.subrange(i, end);
    let tt = match keyword_kind(text) {
        Some(k) => k,
        None => TokenType::Identifier,
    };
    SpecStep {
        token: Some(
            SpecToken { token_type: tt, lexeme: text, literal: SpecLiteral::Absent, line },
        ),
        error: None,
        next: end,
        line,
    }
}

/// A character no rule accepts: a line-anchored diagnostic naming it in
/// debug form (quoted, with the usual backslash escapes), no token, and
/// scanning resumes at the next character.
pub open spec fn unexpected_step(src: Seq<char>, i: int, line: nat) -> SpecStep {
    SpecStep {
        token: None,
        error: Some(
            SpecError {
                line,
                location: Seq::empty(),
                message: "Unexpected character: '"@ + char_debug_text(src[i]) + "'"@,
                local: true,
            },
        ),
        next: i + 1,
        line,
    }
}

/// Classify the one lexeme that starts at position `i` on line `line`: the
/// per-token dispatch of the scanner, written as a function of the source.
pub open spec fn scan_one(src: Seq<char>, i: int, line: nat) -> SpecStep
    recommends
        0 <= i < src.len(),
{
    let c = src[i];
    if c == '(' {
        punct_step(src, i, line, TokenType::LeftParen, 1)
    } else if c == ')' {
        punct_step(src, i, line, TokenType::RightParen, 1)
    } else if c == '{' {
        punct_step(src, i, line, TokenType::LeftBrace, 1)
    } else if c == '}' {
        punct_step(src, i, line, TokenType::RightBrace, 1)
    } else if c == ',' {
        punct_step(src, i, line, TokenType::Comma, 1)
    } else if c == '.' {
        if i + 1 < src.len() && is_digit(src[i + 1]) {
            number_step(src, i, i + 1, line)
        } else {
            punct_step(src, i, line, TokenType::Dot, 1)
        }
    } else if c == '-' {
        punct_step(src, i, line, TokenType::Minus, 1)
    } else if c == '+' {
        punct_step(src, i, line, TokenType::Plus, 1)
    } else if c == ';' {
        punct_step(src, i, line, TokenType::Semicolon, 1)
    } else if c == '*' {
        punct_step(src, i, line, TokenType::Star, 1)
    } else if c == '!' {
        operator_step(src, i, line, TokenType::BangEqual, TokenType::Bang)
    } else if c == '=' {
        operator_step(src, i, line, TokenType::EqualEqual, TokenType::Equal)
    } else if c == '<' {
        operator_step(src, i, line, TokenType::LessEqual, TokenType::Less)
    } else if c == '>' {
        operator_step(src, i, line, TokenType::GreaterEqual, TokenType::Greater)
    } else if c == '/' {
        if i + 1 < src.len() && src[i + 1] == '/' {
            skip_step(comment_end(src, i + 2), line)
        } else {
            punct_step(src, i, line, TokenType::Slash, 1)
        }
    } else if c == ' ' || c == '\r' || c == '\t' {
        skip_step(i + 1, line)
    } else if c == '\n' {
        skip_step(i + 1, line + 1)
    } else if c == '"' {
        string_step(src, i, line)
    } else if is_digit(c) {
        number_step(src, i, i + 1, line)
    } else if is_ident_start(c) {
        ident_step(src, i, line)
    } else {
        unexpected_step(src, i, line)
    }
}

/// A sequence holding the payload of `o`, if any.
pub open spec fn opt_seq<A>(o: Option<A>) -> Seq<A> {
    match o {
        Some(x) => seq![x],
        None => Seq::empty(),
    }
}

/// Everything the scanner produces from position `i` on: the tokens, the
/// diagnostics, and the final line count.
pub struct SpecScanOut {
    pub tokens: Seq<SpecToken>,
    pub errors: Seq<SpecError>,
    pub line: nat,
}

/// Scan the rest of the source from position `i` on line `line`: one
/// lexeme at a time until the end of the input, never stopping early on a
/// diagnostic.  The end-marker is not included here.
pub open spec fn scan_rest(src: Seq<char>, i: int, line: nat) -> SpecScanOut
    decreases src.len() - i
        when 0 <= i <= src.len()
        via scan_rest_decreases
{
    if i >= src.len() {
        SpecScanOut { tokens: Seq::empty(), errors: Seq::empty(), line }
    } else {
        let step = scan_one(src, i, line);
        let rest = scan_rest(src, step.next, step.line);
        SpecScanOut {
            tokens: opt_seq(step.token) + rest.tokens,
            errors: opt_seq(step.error) + rest.errors,
            line: rest.line,
        }
    }
}

#[via_fn]
proof fn scan_rest_decreases(src: Seq<char>, i: int, line: nat) {
    if 0 <= i && i < src.len() {
        lemma_scan_one_bounds(src, i, line);
    }
}

/// The end-marker token: empty lexeme, no payload, the final line count.
pub open spec fn eof_token(line: nat) -> SpecToken {
    SpecToken {
        token_type: TokenType::EOF,
        lexeme: Seq::empty(),
        literal: SpecLiteral::Absent,
        line,
    }
}

/// The full result of scanning `src`: every token in source order with the
/// end-marker appended, and every diagnostic in discovery order.
pub open spec fn spec_scan(src: Seq<char>) -> (Seq<SpecToken>, Seq<SpecError>) {
    let out = scan_rest(src, 0, 1);
    (out.tokens.push(eof_token(out.line)), out.errors)
}

pub proof fn lemma_digits_end(src: Seq<char>, i: int)
    requires
        0 <= i <= src.len(),
    ensures
        i <= digits_end(src, i) <= src.len(),
    decreases src.len() - i,
{
    if i < src.len() && is_digit(src[i]) {
        lemma_digits_end(src, i + 1);
    }
}

pub proof fn lemma_ident_end(src: Seq<char>, i: int)
    requires
        0 <= i <= src.len(),
    ensures
        i <= ident_end(src, i) <= src.len(),
    decreases src.len() - i,
{
    if i < src.len() && is_ident_char(src[i]) {
        lemma_ident_end(src, i + 1);
    }
}

pub proof fn lemma_string_body_end(src: Seq<char>, i: int)
    requires
        0 <= i <= src.len(),
    ensures
        i <= string_body_end(src, i) <= src.len(),
    decreases src.len() - i,
{
    if i < src.len() && src[i] != '"' {
        lemma_string_body_end(src, i + 1);
    }
}

pub proof fn lemma_comment_end(src: Seq<char>, i: int)
    requires
        0 <= i <= src.len(),
    ensures
        i <= comment_end(src, i) <= src.len(),
    decreases src.len() - i,
{
    if i < src.len() && src[i] != '\n' {
        lemma_comment_end(src, i + 1);
    }
}

pub proof fn lemma_number_end(src: Seq<char>, cur: int)
    requires
        0 <= cur <= src.len(),
    ensures
        cur <= number_end(src, cur) <= src.len(),
{
    lemma_digits_end(src, cur);
    let d1 = digits_end(src, cur);
    if d1 < src.len() && src[d1] == '.' && d1 + 1 < src.len() && is_digit(src[d1 + 1]) {
        lemma_digits_end(src, d1 + 1);
    }
}

/// One classification step always makes progress and never runs past the
/// end of the input.
pub proof fn lemma_scan_one_bounds(src: Seq<char>, i: int, line: nat)
    requires
        0 <= i < src.len(),
    ensures
        i < scan_one(src, i, line).next <= src.len(),
{
    lemma_number_end(src, i + 1);
    lemma_ident_end(src, i + 1);
    lemma_string_body_end(src, i + 1);
    if i + 2 <= src.len() {
        lemma_comment_end(src, i + 2);
    }
}

/// Any token a classification step emits is a real lexeme: it is never the
/// end-marker and its lexeme text is never empty.
pub proof fn lemma_scan_one_token(src: Seq<char>, i: int, line: nat)
    requires
        0 <= i < src.len(),
    ensures
        scan_one(src, i, line).token matches Some(t) ==> t.token_type != TokenType::EOF
            && t.lexeme.len() > 0,
{
    lemma_number_end(src, i + 1);
    lemma_ident_end(src, i + 1);
    lemma_string_body_end(src, i + 1);
}

proof fn lemma_scan_rest_tokens(src: Seq<char>, i: int, line: nat)
    requires
        0 <= i <= src.len(),
    ensures
        forall|k: int|
            0 <= k < scan_rest(src, i, line).tokens.len() ==> (#[trigger] scan_rest(
                src,
                i,
                line,
            ).tokens[k]).token_type != TokenType::EOF && scan_rest(
                src,
                i,
                line,
            ).tokens[k].lexeme.len() > 0,
    decreases src.len() - i,
{
    if i < src.len() {
        lemma_scan_one_bounds(src, i, line);
        lemma_scan_one_token(src, i, line);
        let step = scan_one(src, i, line);
        lemma_scan_rest_tokens(src, step.next, step.line);
        let rest = scan_rest(src, step.next, step.line);
        assert forall|k: int| 0 <= k < scan_rest(src, i, line).tokens.len() implies (
        #[trigger] scan_rest(src, i, line).tokens[k]).token_type != TokenType::EOF && scan_rest(
            src,
            i,
            line,
        ).tokens[k].lexeme.len() > 0 by {
            if k >= opt_seq(step.token).len() {
                assert(scan_rest(src, i, line).tokens[k] == rest.tokens[k - opt_seq(
                    step.token,
                ).len()]);
            }
        }
    }
}

/// LAW: whenever scanning succeeds, the output ends with exactly one
/// end-marker token, that end-marker has an empty lexeme, and every other
/// token is not an end-marker and has a non-empty lexeme.  (The token
/// sequence itself does not depend on whether diagnostics occurred, so the
/// law is stated of every scan.)
pub proof fn lemma_end_marker(src: Seq<char>)
    ensures
        spec_scan(src).0.len() >= 1,
        spec_scan(src).0.last() == eof_token(scan_rest(src, 0, 1).line),
        forall|k: int|
            0 <= k < spec_scan(src).0.len() - 1 ==> (#[trigger] spec_scan(
                src,
            ).0[k]).token_type != TokenType::EOF && spec_scan(src).0[k].lexeme.len() > 0,
{
    lemma_scan_rest_tokens(src, 0, 1);
}

/// LAW: the string-literal rule.  Where a string opened at `i` closes
/// before the end of the input, exactly one token is emitted: its lexeme
/// is the whole quoted text, both quote characters included, its payload
/// is the text strictly between the quotes, it is anchored at the line of
/// the opening quote, and the line count for everything that follows grows
/// by exactly the number of newlines the string crossed.
pub proof fn lemma_string_rule(src: Seq<char>, i: int, line: nat)
    requires
        0 <= i < src.len(),
        src[i] == '"',
        string_body_end(src, i + 1) < src.len(),
    ensures
        ({
            let be = string_body_end(src, i + 1);
            let step = scan_one(src, i, line);
            &&& step.token == Some(
                SpecToken {
                    token_type: TokenType::Str,
                    lexeme: src.subrange(i, be + 1),
                    literal: SpecLiteral::Str(src.subrange(i + 1, be)),
                    line,
                },
            )
            &&& step.error is None
            &&& step.next == be + 1
            &&& step.line == line + newline_count(src, i + 1, be)
        }),
{
}

/// LAW: the number-literal rule.  A lexeme that starts with a digit is one
/// Number token; its lexeme and its payload are the same maximal digit
/// run, extended past a dot by a second digit run exactly when a digit
/// directly follows the dot, so a trailing dot is left unconsumed for the
/// next lexeme.
pub proof fn lemma_number_rule(src: Seq<char>, i: int, line: nat)
    requires
        0 <= i < src.len(),
        is_digit(src[i]),
    ensures
        ({
            let end = number_end(src, i + 1);
            let step = scan_one(src, i, line);
            &&& step.token == Some(
                SpecToken {
                    token_type: TokenType::Number,
                    lexeme: src.subrange(i, end),
                    literal: SpecLiteral::Number(src.subrange(i, end)),
                    line,
                },
            )
            &&& step.error is None
            &&& step.next == end
            &&& step.line == line
        }),
        ({
            let d1 = digits_end(src, i + 1);
            (d1 < src.len() && src[d1] == '.' && (d1 + 1 >= src.len() || !is_digit(
                src[d1 + 1],
            ))) ==> number_end(src, i + 1) == d1
        }),
{
}

/// LAW: the identifier-or-keyword rule.  A lexeme that starts with a
/// letter or underscore is one token over the maximal identifier run; its
/// category is the keyword kind exactly when the whole spelling stands in
/// the keyword table, and Identifier otherwise, with no literal payload.
pub proof fn lemma_identifier_rule(src: Seq<char>, i: int, line: nat)
    requires
        0 <= i < src.len(),
        is_ident_start(src[i]),
    ensures
        ({
            let text = src.subrange(i, ident_end(src, i + 1));
            let step = scan_one(src, i, line);
            &&& step.token == Some(
                SpecToken {
                    token_type: match keyword_kind(text) {
                        Some(k) => k,
                        None => TokenType::Identifier,
                    },
                    lexeme: text,
                    literal: SpecLiteral::Absent,
                    line,
                },
            )
            &&& step.error is None
            &&& step.next == ident_end(src, i + 1)
            &&& step.line == line
        }),
{
}

/// LAW: scanning is a pure function of the source text.  Two scans of
/// value-equal sources yield value-equal token sequences and value-equal
/// diagnostic sequences, so re-scanning the same source is idempotent.
pub proof fn lemma_scan_deterministic(src1: Seq<char>, src2: Seq<char>)
    requires
        src1 == src2,
    ensures
        spec_scan(src1) == spec_scan(src2),
{
}

} // verus!
