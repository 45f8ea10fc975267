//! Escaping of characters for diagnostic and debug text, following the
//! usual debug conventions: backslash escapes for the common control
//! characters, `\u{..}` hexadecimal escapes for the remaining control
//! characters, and every other character shown as itself.

use vstd::prelude::*;
use vstd::string::{StrSliceExecFns, StringExecFns};

verus! {

/// The hexadecimal digit `d` as a one-character text, lower case.
pub open spec fn hex_digit_str(d: nat) -> Seq<char> {
    if d == 0 {
        "0"@
    } else if d == 1 {
        "1"@
    } else if d == 2 {
        "2"@
    } else if d == 3 {
        "3"@
    } else if d == 4 {
        "4"@
    } else if d == 5 {
        "5"@
    } else if d == 6 {
        "6"@
    } else if d == 7 {
        "7"@
    } else if d == 8 {
        "8"@
    } else if d == 9 {
        "9"@
    } else if d == 10 {
        "a"@
    } else if d == 11 {
        "b"@
    } else if d == 12 {
        "c"@
    } else if d == 13 {
        "d"@
    } else if d == 14 {
        "e"@
    } else {
        "f"@
    }
}

/// The usual hexadecimal rendering of `n`, lower case, without leading
/// zeros (except for `n == 0` itself).
pub open spec fn hex_str(n: nat) -> Seq<char>
    decreases n,
{
    if n < 16 {
        hex_digit_str(n)
    } else {
        hex_str(n / 16) + hex_digit_str(n % 16)
    }
}

fn hex_digit_text(d: u32) -> (r: &'static str)
    requires
        d < 16,
    ensures
        r@ == hex_digit_str(d as nat),
{
    if d == 0 {
        "0"
    } else if d == 1 {
        "1"
    } else if d == 2 {
        "2"
    } else if d == 3 {
        "3"
    } else if d == 4 {
        "4"
    } else if d == 5 {
        "5"
    } else if d == 6 {
        "6"
    } else if d == 7 {
        "7"
    } else if d == 8 {
        "8"
    } else if d == 9 {
        "9"
    } else if d == 10 {
        "a"
    } else if d == 11 {
        "b"
    } else if d == 12 {
        "c"
    } else if d == 13 {
        "d"
    } else if d == 14 {
        "e"
    } else {
        "f"
    }
}

fn hex_text(n: u32) -> (r: String)
    ensures
        r@ == hex_str(n as nat),
    decreases n,
{
    if n < 16 {
        hex_digit_text(n).to_owned()
    } else {
        assert(n / 16 < n) by (nonlinear_arith)
            requires
                n >= 16,
        ;
        let mut s = hex_text(n / 16);
        s.append(hex_digit_text(n % 16));
        s
    }
}

/// How a character appears in debug output for a character context: the
/// single quote and the backslash are backslash-escaped, the common
/// control characters get their letter escapes, the remaining control
/// characters a `\u{..}` escape, and everything else stands as itself.
pub open spec fn char_debug_text(c: char) -> Seq<char> {
    if c == '\\' {
        "\\\\"@
    } else if c == '\'' {
        "\\'"@
    } else if c == '\0' {
        "\\0"@
    } else if c == '\t' {
        "\\t"@
    } else if c == '\n' {
        "\\n"@
    } else if c == '\r' {
        "\\r"@
    } else if (c as u32) < 32 || (c as u32) == 127 {
        "\\u{"@ + hex_str((c as u32) as nat) + "}"@
    } else {
        seq![c]
    }
}

/// How a character appears in debug output for a double-quoted string
/// context: as in a character context, but the double quote is escaped
/// and the single quote stands as itself.
pub open spec fn string_escape_char(c: char) -> Seq<char> {
    if c == '\\' {
        "\\\\"@
    } else if c == '"' {
        "\\\""@
    } else if c == '\0' {
        "\\0"@
    } else if c == '\t' {
        "\\t"@
    } else if c == '\n' {
        "\\n"@
    } else if c == '\r' {
        "\\r"@
    } else if (c as u32) < 32 || (c as u32) == 127 {
        "\\u{"@ + hex_str((c as u32) as nat) + "}"@
    } else {
        seq![c]
    }
}

/// A whole text, escaped character by character for a double-quoted
/// string context.
pub open spec fn string_escape(s: Seq<char>) -> Seq<char>
    decreases s.len(),
{
    if s.len() == 0 {
        Seq::empty()
    } else {
        string_escape_char(s[0]) + string_escape(s.drop_first())
    }
}

/// Escaping distributes over concatenation.
proof fn lemma_string_escape_concat(a: Seq<char>, b: Seq<char>)
    ensures
        string_escape(a + b) == string_escape(a) + string_escape(b),
    decreases a.len(),
{
    if a.len() == 0 {
        assert(a + b =~= b);
        assert(string_escape(a) + string_escape(b) =~= string_escape(b));
    } else {
        lemma_string_escape_concat(a.drop_first(), b);
        assert((a + b).drop_first() =~= a.drop_first() + b);
        assert((a + b)[0] == a[0]);
        assert(string_escape(a + b) =~= string_escape(a) + string_escape(b));
    }
}

/// The single character of `v`, escaped for a character context.
pub fn escape_char_text(v: &str) -> (r: String)
    requires
        v@.len() == 1,
    ensures
        r@ == char_debug_text(v@[0]),
{
    let c = v.get_char(0);
    if c == '\\' {
        "\\\\".to_owned()
    } else if c == '\'' {
        "\\'".to_owned()
    } else if c == '\0' {
        "\\0".to_owned()
    } else if c == '\t' {
        "\\t".to_owned()
    } else if c == '\n' {
        "\\n".to_owned()
    } else if c == '\r' {
        "\\r".to_owned()
    } else {
        let u: u32 = c as u32;
        if u < 32 || u == 127 {
            let mut s = "\\u{".to_owned();
            let hx = hex_text(u);
            s.append(hx.as_str());
            s.append("}");
            s
        } else {
            proof {
                assert(v@ =~= seq![c]);
            }
            v.to_owned()
        }
    }
}

/// The whole of `v`, escaped for a double-quoted string context.
pub fn escape_string_text(v: &str) -> (r: String)
    ensures
        r@ == string_escape(v@),
{
    let n = v.unicode_len();
    let mut out = String::new();
    let mut i: usize = 0;
    while i < n
        invariant
            n == v@.len(),
            i <= n,
            out@ == string_escape(v@.subrange(0, i as int)),
        decreases n - i,
    {
        let c = v.get_char(i);
        if c == '\\' {
            out.append("\\\\");
        } else if c == '"' {
            out.append("\\\"");
        } else if c == '\0' {
            out.append("\\0");
        } else if c == '\t' {
            out.append("\\t");
        } else if c == '\n' {
            out.append("\\n");
        } else if c == '\r' {
            out.append("\\r");
        } else {
            let u: u32 = c as u32;
            if u < 32 || u == 127 {
                out.append("\\u{");
                let hx = hex_text(u);
                out.append(hx.as_str());
                out.append("}");
            } else {
                out.append(v.substring_char(i, i + 1));
            }
        }
        proof {
            let s = v@;
            let j = i as int;
            assert(s.subrange(0, j + 1) =~= s.subrange(0, j) + seq![s[j]]);
            lemma_string_escape_concat(s.subrange(0, j), seq![s[j]]);
            assert(seq![s[j]].drop_first() =~= Seq::<char>::empty());
            assert(string_escape(Seq::<char>::empty()) =~= Seq::<char>::empty());
            assert(string_escape(seq![s[j]]) =~= string_escape_char(s[j]) + Seq::<char>::empty());
            assert(string_escape_char(s[j]) + Seq::<char>::empty() =~= string_escape_char(s[j]));
            assert(out@ =~= string_escape(s.subrange(0, j + 1)));
        }
        i = i + 1;
    }
    proof {
        assert(v@.subrange(0, n as int) =~= v@);
    }
    out
}

} // verus!
