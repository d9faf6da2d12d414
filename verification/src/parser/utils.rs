//! Character classes and small text-building helpers shared by the
//! recognizers and the normalizer.

use vstd::prelude::*;

verus! {

use crate::is_line_break;

/// Exec mirror of [`crate::is_line_break`]: true exactly for the
/// characters that end a line.
pub fn is_line_break_char(c: char) -> (r: bool)
    ensures
        r == is_line_break(c),
{
    c == '\r' || c == '\n' || c == '\u{000B}' || c == '\u{000C}' || c == '\u{0085}'
        || c == '\u{2028}' || c == '\u{2029}'
}

/// Relies on `String::push`: appends the given character to the end
/// of the string.
#[verifier::external_body]
pub(crate) fn push_char(s: &mut String, c: char)
    ensures
        final(s)@ == old(s)@.push(c),
{
    s.push(c);
}

/// A one-character string.
pub(crate) fn char_string(c: char) -> (r: String)
    ensures
        r@ == seq![c],
{
    let mut s = String::new();
    push_char(&mut s, c);
    proof {
        assert(s@ =~= seq![c]);
    }
    s
}

/// The text of `chars[from..to]` as an owned string.
pub(crate) fn string_of_range(chars: &Vec<char>, from: usize, to: usize) -> (r: String)
    requires
        from <= to <= chars@.len(),
    ensures
        r@ == chars@.subrange(from as int, to as int),
{
    let mut s = String::new();
    let mut k = from;
    while k < to
        invariant
            from <= k <= to <= chars@.len(),
            s@ == chars@.subrange(from as int, k as int),
        decreases to - k,
    {
        push_char(&mut s, chars[k]);
        k = k + 1;
        proof {
            assert(s@ =~= chars@.subrange(from as int, k as int));
        }
    }
    s
}

/// The characters of a string slice, one vector entry per Unicode
/// scalar value.
pub(crate) fn chars_of_str(s: &str) -> (r: Vec<char>)
    ensures
        r@ == s@,
{
    let n = s.unicode_len();
    let mut v: Vec<char> = Vec::new();
    let mut k: usize = 0;
    while k < n
        invariant
            k <= n == s@.len(),
            v@ == s@.subrange(0, k as int),
        decreases n - k,
    {
        v.push(s.get_char(k));
        k = k + 1;
        proof {
            assert(v@ =~= s@.subrange(0, k as int));
        }
    }
    proof {
        assert(v@ =~= s@);
    }
    v
}

/// A copy of a list of host labels, equal to the original label for
/// label.
pub(crate) fn clone_host(host: &Vec<String>) -> (r: Vec<String>)
    ensures
        r@ == host@,
{
    let mut v: Vec<String> = Vec::new();
    let mut k: usize = 0;
    while k < host.len()
        invariant
            k <= host@.len(),
            v@ == host@.subrange(0, k as int),
        decreases host@.len() - k,
    {
        v.push(host[k].clone());
        k = k + 1;
        proof {
            assert(v@ =~= host@.subrange(0, k as int));
        }
    }
    proof {
        assert(v@ =~= host@);
    }
    v
}

} // verus!
