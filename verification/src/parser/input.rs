//! The parser's input: the text as one character per position, with
//! the line-head test that gates the line-anchored constructs.

use vstd::prelude::*;

verus! {

use crate::parser::grammar;
use crate::parser::utils::{chars_of_str, is_line_break_char};

/// A prepared input: one vector entry per Unicode scalar value of the
/// original text. Positions into it index characters, never bytes,
/// and whether a position is at the head of a line is derived from
/// the character before it, never from shared state.
pub struct Input {
    pub chars: Vec<char>,
}

impl View for Input {
    type V = Seq<char>;

    open spec fn view(&self) -> Seq<char> {
        self.chars@
    }
}

impl Input {
    /// Prepare a string for parsing.
    pub fn new(s: &str) -> (inp: Input)
        ensures
            inp@ == s@,
    {
        Input { chars: chars_of_str(s) }
    }

    /// The number of characters.
    pub fn len(&self) -> (n: usize)
        ensures
            n == self@.len(),
    {
        self.chars.len()
    }

    /// Whether position `i` is at the head of a line: at the start of
    /// the input or right after a line-break character.
    pub fn line_head(&self, i: usize) -> (r: bool)
        requires
            i <= self@.len(),
        ensures
            r == grammar::line_head_at(self@, i as int),
    {
        i == 0 || is_line_break_char(self.chars[i - 1])
    }
}

} // verus!
