//! The token model: lexical categories, literal payloads, and the immutable
//! token record the scanner emits.

use vstd::prelude::*;
use vstd::string::StringExecFns;
use crate::escape::{escape_string_text, string_escape};

verus! {

/// The closed set of lexical categories, one variant per kind of lexeme the
/// grammar defines, plus the end-marker appended after the last real token.
#[derive(Debug, Clone, Copy, PartialEq, Eq, Structural)]
pub enum TokenType {
    LeftParen,
    RightParen,
    LeftBrace,
    RightBrace,
    Comma,
    Dot,
    Minus,
    Plus,
    Semicolon,
    Slash,
    Star,
    Bang,
    BangEqual,
    Equal,
    EqualEqual,
    Greater,
    GreaterEqual,
    Less,
    LessEqual,
    Identifier,
    Str,
    Number,
    And,
    Class,
    Else,
    False,
    Fun,
    For,
    If,
    Nil,
    Or,
    Print,
    Return,
    Super,
    This,
    True,
    Var,
    While,
    EOF,
}

/// The tagged value attached to a token: absent, a string payload (the text
/// strictly between the quotes), or a numeric payload.  A numeric payload is
/// kept as the exact digit text matched in the source; turning that text into
/// a machine float is left to unverified callers, so the scanner itself stays
/// a pure function of the source text.
#[derive(Debug, Clone, PartialEq)]
pub enum Literal {
    Absent,
    Str(String),
    Number(String),
}

/// Spec-level image of a `Literal`, with the payloads as character sequences.
pub enum SpecLiteral {
    Absent,
    Str(Seq<char>),
    Number(Seq<char>),
}

impl View for Literal {
    type V = SpecLiteral;

    open spec fn view(&self) -> SpecLiteral {
        match self {
            Literal::Absent => SpecLiteral::Absent,
            Literal::Str(s) => SpecLiteral::Str(s@),
            Literal::Number(s) => SpecLiteral::Number(s@),
        }
    }
}

/// An immutable record of one classified lexeme: its category, the exact
/// source substring matched, the literal payload (if any), and the 1-based
/// source line of the token's first character (the end-marker, which has
/// no characters, carries the final line count).
#[derive(Debug, Clone, PartialEq)]
pub struct Token {
    pub token_type: TokenType,
    pub lexeme: String,
    pub literal: Literal,
    pub line: usize,
}

/// Spec-level image of a `Token`.
pub struct SpecToken {
    pub token_type: TokenType,
    pub lexeme: Seq<char>,
    pub literal: SpecLiteral,
    pub line: nat,
}

impl View for Token {
    type V = SpecToken;

    open spec fn view(&self) -> SpecToken {
        SpecToken {
            token_type: self.token_type,
            lexeme: self.lexeme@,
            literal: self.literal@,
            line: self.line as nat,
        }
    }
}

/// The name of a token category, as `to_string` renders it.
pub open spec fn token_type_name(t: TokenType) -> Seq<char> {
    match t {
        TokenType::LeftParen => "LeftParen"@,
        TokenType::RightParen => "RightParen"@,
        TokenType::LeftBrace => "LeftBrace"@,
        TokenType::RightBrace => "RightBrace"@,
        TokenType::Comma => "Comma"@,
        TokenType::Dot => "Dot"@,
        TokenType::Minus => "Minus"@,
        TokenType::Plus => "Plus"@,
        TokenType::Semicolon => "Semicolon"@,
        TokenType::Slash => "Slash"@,
        TokenType::Star => "Star"@,
        TokenType::Bang => "Bang"@,
        TokenType::BangEqual => "BangEqual"@,
        TokenType::Equal => "Equal"@,
        TokenType::EqualEqual => "EqualEqual"@,
        TokenType::Greater => "Greater"@,
        TokenType::GreaterEqual => "GreaterEqual"@,
        TokenType::Less => "Less"@,
        TokenType::LessEqual => "LessEqual"@,
        TokenType::Identifier => "Identifier"@,
        TokenType::Str => "Str"@,
        TokenType::Number => "Number"@,
        TokenType::And => "And"@,
        TokenType::Class => "Class"@,
        TokenType::Else => "Else"@,
        TokenType::False => "False"@,
        TokenType::Fun => "Fun"@,
        TokenType::For => "For"@,
        TokenType::If => "If"@,
        TokenType::Nil => "Nil"@,
        TokenType::Or => "Or"@,
        TokenType::Print => "Print"@,
        TokenType::Return => "Return"@,
        TokenType::Super => "Super"@,
        TokenType::This => "This"@,
        TokenType::True => "True"@,
        TokenType::Var => "Var"@,
        TokenType::While => "While"@,
        TokenType::EOF => "EOF"@,
    }
}

/// How `to_string` renders a literal payload: the variant name, a string
/// payload double-quoted with its text in debug-escaped form, a numeric
/// payload as its matched digit text (machine floats stay outside the
/// verified core, so the text stands where a float rendering would).
pub open spec fn literal_text(l: SpecLiteral) -> Seq<char> {
    match l {
        SpecLiteral::Absent => "None"@,
        SpecLiteral::Str(s) => "Str(\""@ + string_escape(s) + "\")"@,
        SpecLiteral::Number(s) => "Number("@ + s + ")"@,
    }
}

/// How `to_string` renders a whole token: category, lexeme and literal,
/// separated by single spaces.
pub open spec fn token_text(t: SpecToken) -> Seq<char> {
    token_type_name(t.token_type) + " "@ + t.lexeme + " "@ + literal_text(t.literal)
}

fn category_name(t: TokenType) -> (r: &'static str)
    ensures
        r@ == token_type_name(t),
{
    match t {
        TokenType::LeftParen => "LeftParen",
        TokenType::RightParen => "RightParen",
        TokenType::LeftBrace => "LeftBrace",
        TokenType::RightBrace => "RightBrace",
        TokenType::Comma => "Comma",
        TokenType::Dot => "Dot",
        TokenType::Minus => "Minus",
        TokenType::Plus => "Plus",
        TokenType::Semicolon => "Semicolon",
        TokenType::Slash => "Slash",
        TokenType::Star => "Star",
        TokenType::Bang => "Bang",
        TokenType::BangEqual => "BangEqual",
        TokenType::Equal => "Equal",
        TokenType::EqualEqual => "EqualEqual",
        TokenType::Greater => "Greater",
        TokenType::GreaterEqual => "GreaterEqual",
        TokenType::Less => "Less",
        TokenType::LessEqual => "LessEqual",
        TokenType::Identifier => "Identifier",
        TokenType::Str => "Str",
        TokenType::Number => "Number",
        TokenType::And => "And",
        TokenType::Class => "Class",
        TokenType::Else => "Else",
        TokenType::False => "False",
        TokenType::Fun => "Fun",
        TokenType::For => "For",
        TokenType::If => "If",
        TokenType::Nil => "Nil",
        TokenType::Or => "Or",
        TokenType::Print => "Print",
        TokenType::Return => "Return",
        TokenType::Super => "Super",
        TokenType::This => "This",
        TokenType::True => "True",
        TokenType::Var => "Var",
        TokenType::While => "While",
        TokenType::EOF => "EOF",
    }
}

impl Token {
    /// Construct a token.  No validation happens here: the scanner is the
    /// only producer and is responsible for the token invariants.
    pub fn new(token_type: TokenType, lexeme: String, literal: Literal, line: usize) -> (r: Self)
        ensures
            r@ == (SpecToken {
                token_type,
                lexeme: lexeme@,
                literal: literal@,
                line: line as nat,
            }),
    {
        Token { token_type, lexeme, literal, line }
    }

    /// A human-readable rendering of the token (category, lexeme, literal)
    /// for debugging and prompt echo; not a stable wire format.
    pub fn to_string(&self) -> (r: String)
        ensures
            r@ == token_text(self@),
    {
        let mut s = category_name(self.token_type).to_owned();
        s.append(" ");
        s.append(self.lexeme.as_str());
        s.append(" ");
        match &self.literal {
            Literal::Absent => {
                s.append("None");
            },
            Literal::Str(v) => {
                s.append("Str(\"");
                let escaped = escape_string_text(v.as_str());
                s.append(escaped.as_str());
                s.append("\")");
            },
            Literal::Number(v) => {
                s.append("Number(");
                s.append(v.as_str());
                s.append(")");
            },
        }
        proof {
            assert(s@ =~= token_text(self@));
        }
        s
    }
}

} // verus!
