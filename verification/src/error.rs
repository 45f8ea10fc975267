//! The error model: a diagnostic value carrying a source line, an optional
//! location label, and a message, in two construction modes (line-anchored
//! and global), together with its verified text rendering.

use vstd::prelude::*;
use vstd::string::StringExecFns;

verus! {

/// Spec-level image of an `InterpreterError`.
pub struct SpecError {
    pub line: nat,
    pub location: Seq<char>,
    pub message: Seq<char>,
    pub local: bool,
}

/// One diagnostic.  A local (line-anchored) error points at a source line;
/// a global error only summarizes that something failed.
#[derive(Debug, Clone, PartialEq)]
pub struct InterpreterError {
    pub line: usize,
    pub location: String,
    pub message: String,
    local: bool,
}

impl View for InterpreterError {
    type V = SpecError;

    closed spec fn view(&self) -> SpecError {
        SpecError {
            line: self.line as nat,
            location: self.location@,
            message: self.message@,
            local: self.local,
        }
    }
}

/// The decimal digit `d` as a one-character text.
pub open spec fn digit_str(d: nat) -> Seq<char> {
    if d == 0 {
        "0"@
    } else if d == 1 {
        "1"@
    } else if d == 2 {
        "2"@
    } else if d == 3 {
        "3"@
    } else if d == 4 {
        "4"@
    } else if d == 5 {
        "5"@
    } else if d == 6 {
        "6"@
    } else if d == 7 {
        "7"@
    } else if d == 8 {
        "8"@
    } else {
        "9"@
    }
}

/// The usual decimal rendering of `n`, without a sign and without leading
/// zeros (except for `n == 0` itself).
pub open spec fn dec_str(n: nat) -> Seq<char>
    decreases n,
{
    if n < 10 {
        digit_str(n)
    } else {
        dec_str(n / 10) + digit_str(n % 10)
    }
}

fn digit_text(d: usize) -> (r: &'static str)
    requires
        d < 10,
    ensures
        r@ == digit_str(d as nat),
{
    if d == 0 {
        "0"
    } else if d == 1 {
        "1"
    } else if d == 2 {
        "2"
    } else if d == 3 {
        "3"
    } else if d == 4 {
        "4"
    } else if d == 5 {
        "5"
    } else if d == 6 {
        "6"
    } else if d == 7 {
        "7"
    } else if d == 8 {
        "8"
    } else {
        "9"
    }
}

fn fmt_usize(n: usize) -> (r: String)
    ensures
        r@ == dec_str(n as nat),
    decreases n,
{
    if n < 10 {
        digit_text(n).to_owned()
    } else {
        assert(n / 10 < n) by (nonlinear_arith)
            requires
                n >= 10,
        ;
        let mut s = fmt_usize(n / 10);
        s.append(digit_text(n % 10));
        s
    }
}

/// The exact text `report` writes for a diagnostic: a line-anchored form for
/// local errors and a bare form for global ones.
pub open spec fn spec_render(e: SpecError) -> Seq<char> {
    if e.local {
        "Interpreter Error: [line "@ + dec_str(e.line) + "] Error "@ + e.location + ": "@
            + e.message
    } else {
        "Interpreter Error: "@ + e.message
    }
}

impl InterpreterError {
    /// A line-anchored diagnostic: reported inline, one per lexical problem.
    pub fn new_local(line: usize, location: &str, message: &str) -> (r: Self)
        ensures
            r@ == (SpecError {
                line: line as nat,
                location: location@,
                message: message@,
                local: true,
            }),
    {
        InterpreterError {
            line,
            location: location.to_owned(),
            message: message.to_owned(),
            local: true,
        }
    }

    /// A global diagnostic: no line anchor, only a summary message.
    pub fn new(message: &str) -> (r: Self)
        ensures
            r@ == (SpecError {
                line: 0,
                location: Seq::<char>::empty(),
                message: message@,
                local: false,
            }),
    {
        InterpreterError { line: 0, location: String::new(), message: message.to_owned(), local: false }
    }

    /// Whether this diagnostic is line-anchored.
    pub fn is_local(&self) -> (r: bool)
        ensures
            r == self@.local,
    {
        self.local
    }

    /// The exact diagnostic line that reporting writes to the error stream.
    /// The write itself is plain output and is left to the caller.
    pub fn render(&self) -> (r: String)
        ensures
            r@ == spec_render(self@),
    {
        if self.local {
            let mut s = "Interpreter Error: [line ".to_owned();
            let num = fmt_usize(self.line);
            s.append(num.as_str());
            s.append("] Error ");
            s.append(self.location.as_str());
            s.append(": ");
            s.append(self.message.as_str());
            s
        } else {
            let mut s = "Interpreter Error: ".to_owned();
            s.append(self.message.as_str());
            s
        }
    }
}

} // verus!
