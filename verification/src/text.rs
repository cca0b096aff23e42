//! Characters, indentation and JSON-style double-quoted escaping.
//!
//! Every renderer indents by two spaces per nesting level, and both the
//! JSON renderer and the quoting fallbacks of the YAML and TOML
//! renderers escape strings the same way: `"` and `\` get a backslash,
//! the common control characters use their short escapes, any other
//! control character becomes `\u00..` with two lowercase hex digits, and
//! everything else is copied verbatim.

use vstd::prelude::*;
use vstd::string::StrSliceExecFns;

verus! {

/// `n` spaces.
pub open spec fn spaces(n: nat) -> Seq<char>
    decreases n,
{
    if n == 0 {
        Seq::empty()
    } else {
        spaces((n - 1) as nat).push(' ')
    }
}

pub proof fn lemma_spaces_len(n: nat)
    ensures
        spaces(n).len() == n,
    decreases n,
{
    if n > 0 {
        lemma_spaces_len((n - 1) as nat);
    }
}

/// Growing an indentation by one level appends exactly two spaces.
pub proof fn lemma_spaces_step(n: nat)
    ensures
        spaces((n + 2) as nat) == spaces(n) + "  "@,
{
    reveal_strlit("  ");
    lemma_spaces_len(n);
    assert(spaces((n + 2) as nat) == spaces((n + 1) as nat).push(' '));
    assert(spaces((n + 1) as nat) == spaces(n).push(' '));
    assert(spaces((n + 2) as nat) =~= spaces(n) + "  "@);
}

/// A newline followed by the indentation of nesting level `depth`.
pub open spec fn nl_ind(depth: nat) -> Seq<char> {
    "\n"@ + spaces(2 * depth)
}

/// Printable ASCII: codepoints 0x20 through 0x7e.
pub open spec fn printable(c: char) -> bool {
    0x20 <= (c as u32) && (c as u32) <= 0x7e
}

pub open spec fn all_printable(s: Seq<char>) -> bool {
    forall|i: int| 0 <= i < s.len() ==> printable(#[trigger] s[i])
}

pub open spec fn printable_or_nl(c: char) -> bool {
    printable(c) || c == '\n'
}

pub open spec fn all_printable_or_nl(s: Seq<char>) -> bool {
    forall|i: int| 0 <= i < s.len() ==> printable_or_nl(#[trigger] s[i])
}

/// An ASCII decimal digit.
pub open spec fn ascii_digit(c: char) -> bool {
    0x30 <= (c as u32) && (c as u32) <= 0x39
}

/// A Unicode whitespace character, as `char::is_whitespace` counts them.
pub open spec fn unicode_ws(c: char) -> bool {
    (c as u32) == 0x20 || ((c as u32) >= 0x09 && (c as u32) <= 0x0d) || (c as u32) == 0x85
        || (c as u32) == 0xa0 || (c as u32) == 0x1680 || ((c as u32) >= 0x2000 && (c as u32)
        <= 0x200a) || (c as u32) == 0x2028 || (c as u32) == 0x2029 || (c as u32) == 0x202f || (
    c as u32) == 0x205f || (c as u32) == 0x3000
}

/// Whether the characters `a` then `b` occur adjacently in `s`.
pub open spec fn has_pair(s: Seq<char>, a: char, b: char) -> bool {
    exists|i: int| 0 <= i && i + 1 < s.len() && (#[trigger] s[i]) == a && s[i + 1] == b
}

/// Whether `c` occurs in `s`.
pub open spec fn has_char(s: Seq<char>, c: char) -> bool {
    exists|i: int| 0 <= i < s.len() && (#[trigger] s[i]) == c
}

/// The lowercase hexadecimal digit of value `n`.
pub open spec fn hex_digit(n: u32) -> char {
    if n == 0 {
        '0'
    } else if n == 1 {
        '1'
    } else if n == 2 {
        '2'
    } else if n == 3 {
        '3'
    } else if n == 4 {
        '4'
    } else if n == 5 {
        '5'
    } else if n == 6 {
        '6'
    } else if n == 7 {
        '7'
    } else if n == 8 {
        '8'
    } else if n == 9 {
        '9'
    } else if n == 10 {
        'a'
    } else if n == 11 {
        'b'
    } else if n == 12 {
        'c'
    } else if n == 13 {
        'd'
    } else if n == 14 {
        'e'
    } else {
        'f'
    }
}

/// The escape of one character inside a double-quoted scalar: quote and
/// backslash get a backslash, the common control characters use their
/// short escapes, any other control character becomes `\u00..`, and
/// everything else stands for itself.
pub open spec fn esc(c: char) -> Seq<char> {
    if c == '"' {
        seq!['\\', '"']
    } else if c == '\\' {
        seq!['\\', '\\']
    } else if (c as u32) == 0x08 {
        seq!['\\', 'b']
    } else if c == '\t' {
        seq!['\\', 't']
    } else if c == '\n' {
        seq!['\\', 'n']
    } else if (c as u32) == 0x0c {
        seq!['\\', 'f']
    } else if c == '\r' {
        seq!['\\', 'r']
    } else if (c as u32) < 0x20 {
        seq!['\\', 'u', '0', '0', hex_digit((c as u32) / 16), hex_digit((c as u32) % 16)]
    } else {
        seq![c]
    }
}

/// The escapes of the first `i` characters of `s`, concatenated.
pub open spec fn escaped_to(s: Seq<char>, i: int) -> Seq<char>
    decreases i,
{
    if i <= 0 {
        Seq::empty()
    } else {
        escaped_to(s, i - 1) + esc(s[i - 1])
    }
}

/// The double-quoted form of `s`: a quote, every character escaped, a
/// quote. The result is both a valid JSON string literal and a valid
/// YAML double-quoted scalar.
pub open spec fn json_quote(s: Seq<char>) -> Seq<char> {
    seq!['"'] + escaped_to(s, s.len() as int) + seq!['"']
}

/// Relies on `String`'s `FromIterator<char>`: collecting an iterator of
/// characters yields the string of exactly those characters, in order.
#[verifier::external_body]
pub fn chars_to_string(cs: &Vec<char>) -> (r: String)
    ensures
        r@ == cs@,
{
    cs.iter().collect()
}

/// Whether `c` is Unicode whitespace.
pub fn is_ws_char(c: char) -> (r: bool)
    ensures
        r == unicode_ws(c),
{
    let u = c as u32;
    u == 0x20 || (u >= 0x09 && u <= 0x0d) || u == 0x85 || u == 0xa0 || u == 0x1680 || (u >= 0x2000
        && u <= 0x200a) || u == 0x2028 || u == 0x2029 || u == 0x202f || u == 0x205f || u == 0x3000
}

/// Whether every character of `s` is printable ASCII.
pub fn all_printable_exec(s: &str) -> (r: bool)
    ensures
        r == all_printable(s@),
{
    let n = s.unicode_len();
    let mut i: usize = 0;
    while i < n
        invariant
            i <= n,
            n == s@.len(),
            forall|j: int| 0 <= j < i ==> printable(#[trigger] s@[j]),
        decreases n - i,
    {
        let c = s.get_char(i);
        let u = c as u32;
        if u < 0x20 || u > 0x7e {
            return false;
        }
        i = i + 1;
    }
    true
}

/// Whether every character of `s` is printable ASCII or a newline.
pub fn all_printable_or_nl_exec(s: &str) -> (r: bool)
    ensures
        r == all_printable_or_nl(s@),
{
    let n = s.unicode_len();
    let mut i: usize = 0;
    while i < n
        invariant
            i <= n,
            n == s@.len(),
            forall|j: int| 0 <= j < i ==> printable_or_nl(#[trigger] s@[j]),
        decreases n - i,
    {
        let c = s.get_char(i);
        let u = c as u32;
        if (u < 0x20 || u > 0x7e) && c != '\n' {
            return false;
        }
        i = i + 1;
    }
    true
}

/// Whether the characters `a` then `b` occur adjacently in `s`.
pub fn has_pair_exec(s: &str, a: char, b: char) -> (r: bool)
    ensures
        r == has_pair(s@, a, b),
{
    let n = s.unicode_len();
    if n < 2 {
        return false;
    }
    let mut i: usize = 0;
    while i + 1 < n
        invariant
            n == s@.len(),
            i + 1 <= n,
            forall|j: int| 0 <= j && j < i ==> !((#[trigger] s@[j]) == a && s@[j + 1] == b),
        decreases n - i,
    {
        if s.get_char(i) == a && s.get_char(i + 1) == b {
            return true;
        }
        i = i + 1;
    }
    false
}

/// Whether `c` occurs in `s`.
pub fn has_char_exec(s: &str, c: char) -> (r: bool)
    ensures
        r == has_char(s@, c),
{
    let n = s.unicode_len();
    let mut i: usize = 0;
    while i < n
        invariant
            i <= n,
            n == s@.len(),
            forall|j: int| 0 <= j < i ==> (#[trigger] s@[j]) != c,
        decreases n - i,
    {
        if s.get_char(i) == c {
            return true;
        }
        i = i + 1;
    }
    false
}

/// The double-quoted, escaped form of `s`, as [`json_quote`] states it.
pub fn quote(s: &str) -> (r: String)
    ensures
        r@ == json_quote(s@),
{
    let n = s.unicode_len();
    let mut buf: Vec<char> = Vec::new();
    buf.push('"');
    proof {
        assert(buf@ =~= seq!['"'] + escaped_to(s@, 0));
    }
    let mut i: usize = 0;
    while i < n
        invariant
            i <= n,
            n == s@.len(),
            buf@ == seq!['"'] + escaped_to(s@, i as int),
        decreases n - i,
    {
        let c = s.get_char(i);
        if c == '"' {
            buf.push('\\');
            buf.push('"');
        } else if c == '\\' {
            buf.push('\\');
            buf.push('\\');
        } else {
            let u = c as u32;
            if u >= 0x20 {
                buf.push(c);
            } else if u == 0x08 {
                buf.push('\\');
                buf.push('b');
            } else if c == '\t' {
                buf.push('\\');
                buf.push('t');
            } else if c == '\n' {
                buf.push('\\');
                buf.push('n');
            } else if u == 0x0c {
                buf.push('\\');
                buf.push('f');
            } else if c == '\r' {
                buf.push('\\');
                buf.push('r');
            } else {
                buf.push('\\');
                buf.push('u');
                buf.push('0');
                buf.push('0');
                buf.push(hex_char(u / 16));
                buf.push(hex_char(u % 16));
            }
        }
        proof {
            assert(buf@ =~= seq!['"'] + escaped_to(s@, i + 1));
        }
        i = i + 1;
    }
    buf.push('"');
    proof {
        assert(buf@ =~= json_quote(s@));
    }
    chars_to_string(&buf)
}

/// The lowercase hexadecimal digit of value `n`.
pub fn hex_char(n: u32) -> (c: char)
    ensures
        c == hex_digit(n),
{
    if n == 0 {
        '0'
    } else if n == 1 {
        '1'
    } else if n == 2 {
        '2'
    } else if n == 3 {
        '3'
    } else if n == 4 {
        '4'
    } else if n == 5 {
        '5'
    } else if n == 6 {
        '6'
    } else if n == 7 {
        '7'
    } else if n == 8 {
        '8'
    } else if n == 9 {
        '9'
    } else if n == 10 {
        'a'
    } else if n == 11 {
        'b'
    } else if n == 12 {
        'c'
    } else if n == 13 {
        'd'
    } else if n == 14 {
        'e'
    } else {
        'f'
    }
}

} // verus!
