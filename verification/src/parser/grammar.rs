//! The grammar, stated mathematically over `Seq<char>`.
//!
//! Every recognizer is a spec function from the input and a position
//! to either a new position with the recognized node, or `None` when
//! the alternative yields. The dispatcher [`span_item`] tries the
//! recognizers in a fixed priority order and falls back to consuming
//! one character, so the grammar is total. The executable parser is
//! proved to return exactly these results.

use vstd::prelude::*;

verus! {

use crate::is_line_break;
use crate::parser::node::RawNodeView;

/// Structural constructs (wrapper tags, quotes, hashtag brackets)
/// deeper than this many levels are not recognized; their opening
/// text degrades to literal characters instead, so the parser's
/// recursion depth stays bounded on adversarial input.
pub const MAX_NESTING_DEPTH: usize = 128;

/// A word character: ASCII letter, digit or underscore.
pub open spec fn is_word_char(c: char) -> bool {
    ('0' <= c && c <= '9') || ('A' <= c && c <= 'Z') || c == '_' || ('a' <= c && c <= 'z')
}

/// A character allowed inside a domain label.
pub open spec fn is_domain_char(c: char) -> bool {
    c == '-' || ('0' <= c && c <= '9') || ('A' <= c && c <= 'Z') || ('a' <= c && c <= 'z')
}

/// An ASCII letter or digit; the lookahead class of the emoji rule.
pub open spec fn is_ascii_alphanumeric(c: char) -> bool {
    ('0' <= c && c <= '9') || ('A' <= c && c <= 'Z') || ('a' <= c && c <= 'z')
}

/// The zero-width space, tolerated around emoji shortcodes.
pub open spec fn is_zwsp(c: char) -> bool {
    c == '\u{200B}'
}

/// A character that can never stand bare inside a hashtag.
pub open spec fn is_hashtag_prohibited(c: char) -> bool {
    c == ' ' || c == '\u{3000}' || c == '\t' || c == '\r' || c == '\n' || c == '.' || c == ','
        || c == '!' || c == '?' || c == '\'' || c == '"' || c == '#' || c == ':' || c == '/'
        || c == '[' || c == '\\' || c == ']' || c == '【' || c == '】' || c == '(' || c == ')'
        || c == '「' || c == '」' || c == '（' || c == '）' || c == '<' || c == '>'
}

/// An opening bracket that starts a balanced hashtag group.
pub open spec fn is_open_bracket(c: char) -> bool {
    c == '(' || c == '[' || c == '「' || c == '（'
}

/// The closing bracket matching an opening one.
pub open spec fn close_of(c: char) -> char {
    if c == '(' {
        ')'
    } else if c == '[' {
        ']'
    } else if c == '「' {
        '」'
    } else {
        '）'
    }
}

/// Whether position `i` is at the head of a line: at the very start
/// of the input, or right after a line-break character.
pub open spec fn line_head_at(s: Seq<char>, i: int) -> bool {
    i == 0 || is_line_break(s[i - 1])
}

/// The end of the maximal run of word characters starting at `i`.
pub open spec fn word_run_end(s: Seq<char>, i: int) -> int
    decreases s.len() - i,
{
    if 0 <= i < s.len() && is_word_char(s[i]) {
        word_run_end(s, i + 1)
    } else {
        i
    }
}

/// The end of the maximal run of domain characters starting at `i`.
pub open spec fn domain_label_end(s: Seq<char>, i: int) -> int
    decreases s.len() - i,
{
    if 0 <= i < s.len() && is_domain_char(s[i]) {
        domain_label_end(s, i + 1)
    } else {
        i
    }
}

/// The end of the maximal run of zero-width spaces starting at `i`.
pub open spec fn zwsp_run_end(s: Seq<char>, i: int) -> int
    decreases s.len() - i,
{
    if 0 <= i < s.len() && is_zwsp(s[i]) {
        zwsp_run_end(s, i + 1)
    } else {
        i
    }
}

/// A domain label starting at `i`: a non-empty run of domain
/// characters that neither begins nor ends with `-`. Returns the end
/// of the label.
pub open spec fn label_at(s: Seq<char>, i: int) -> Option<int> {
    let e = domain_label_end(s, i);
    if e > i && s[i] != '-' && s[e - 1] != '-' {
        Some(e)
    } else {
        None
    }
}

/// Further `.`-separated labels after a first one. A final `.` with
/// no label behind it is consumed and contributes one empty label,
/// the DNS root marker.
pub open spec fn domain_rest(s: Seq<char>, i: int, acc: Seq<Seq<char>>) -> (int, Seq<Seq<char>>)
    decreases s.len() - i,
{
    if 0 <= i < s.len() && s[i] == '.' {
        match label_at(s, i + 1) {
            Some(e) => {
                if i + 1 < e <= s.len() {
                    domain_rest(s, e, acc.push(s.subrange(i + 1, e)))
                } else {
                    (i, acc)
                }
            },
            None => (i + 1, acc.push(Seq::empty())),
        }
    } else {
        (i, acc)
    }
}

/// A domain: one or more `.`-separated labels, with an optional
/// trailing root dot. Returns the position after the domain and the
/// labels in source order.
pub open spec fn domain(s: Seq<char>, i: int) -> Option<(int, Seq<Seq<char>>)> {
    match label_at(s, i) {
        Some(e) => Some(domain_rest(s, e, seq![s.subrange(i, e)])),
        None => None,
    }
}

/// A global mention: `@`, a word run, `@`, a domain.
pub open spec fn global_user(s: Seq<char>, i: int) -> Option<(int, RawNodeView)> {
    if 0 <= i < s.len() && s[i] == '@' {
        let w = word_run_end(s, i + 1);
        if w > i + 1 && w < s.len() && s[w] == '@' {
            match domain(s, w + 1) {
                Some((j, labels)) => Some(
                    (j, RawNodeView::GlobalUser(s.subrange(i + 1, w), labels)),
                ),
                None => None,
            }
        } else {
            None
        }
    } else {
        None
    }
}

/// A local mention: `@` and a word run, tried after [`global_user`].
pub open spec fn local_user(s: Seq<char>, i: int) -> Option<(int, RawNodeView)> {
    if 0 <= i < s.len() && s[i] == '@' {
        let w = word_run_end(s, i + 1);
        if w > i + 1 {
            Some((w, RawNodeView::LocalUser(s.subrange(i + 1, w))))
        } else {
            None
        }
    } else {
        None
    }
}

/// A custom-emoji shortcode: optional zero-width spaces, `:`, a word
/// run, `:`, optional zero-width spaces, and a lookahead requiring
/// that the next character is not ASCII alphanumeric (so a clock time
/// such as half of "12:34:56" is rejected and shortcodes cannot merge
/// into an adjacent word).
pub open spec fn custom_emoji(s: Seq<char>, i: int) -> Option<(int, RawNodeView)> {
    let z0 = zwsp_run_end(s, i);
    if z0 < s.len() && s[z0] == ':' {
        let w = word_run_end(s, z0 + 1);
        if w > z0 + 1 && w < s.len() && s[w] == ':' {
            let z1 = zwsp_run_end(s, w + 1);
            if z1 == s.len() || !is_ascii_alphanumeric(s[z1]) {
                Some((z1, RawNodeView::LocalCustomEmoji(s.subrange(z0 + 1, w))))
            } else {
                None
            }
        } else {
            None
        }
    } else {
        None
    }
}

/// One hashtag item: a balanced bracket group holding further items,
/// or any single character outside the prohibited set. An unclosed
/// opening bracket is no item, so the hashtag ends just before it.
pub open spec fn hashtag_item_end(s: Seq<char>, i: int, depth: int) -> Option<int>
    decreases s.len() - i, 0int,
{
    if 0 <= i < s.len() {
        if is_open_bracket(s[i]) {
            if depth > 0 {
                let j = hashtag_items_end(s, i + 1, depth - 1);
                if i + 1 <= j < s.len() && s[j] == close_of(s[i]) {
                    Some(j + 1)
                } else {
                    None
                }
            } else {
                None
            }
        } else if !is_hashtag_prohibited(s[i]) {
            Some(i + 1)
        } else {
            None
        }
    } else {
        None
    }
}

/// The end of the maximal run of hashtag items starting at `i`.
pub open spec fn hashtag_items_end(s: Seq<char>, i: int, depth: int) -> int
    decreases s.len() - i, 1int,
{
    match hashtag_item_end(s, i, depth) {
        Some(j) => {
            if i < j <= s.len() {
                hashtag_items_end(s, j, depth)
            } else {
                i
            }
        },
        None => i,
    }
}

/// A hashtag: `#` and at least one hashtag item.
pub open spec fn hashtag(s: Seq<char>, i: int, depth: int) -> Option<(int, RawNodeView)> {
    if 0 <= i < s.len() && s[i] == '#' {
        let j = hashtag_items_end(s, i + 1, depth);
        if j > i + 1 {
            Some((j, RawNodeView::HashTag(s.subrange(i + 1, j))))
        } else {
            None
        }
    } else {
        None
    }
}

/// Whether `pat` occurs in `s` starting exactly at `i`.
pub open spec fn starts_with_at(s: Seq<char>, i: int, pat: Seq<char>) -> bool {
    0 <= i && i + pat.len() <= s.len() && s.subrange(i, i + pat.len()) == pat
}

/// The first occurrence of `pat` at or after `i`, if any.
pub open spec fn find_from(s: Seq<char>, i: int, pat: Seq<char>) -> Option<int>
    decreases s.len() - i + 1,
{
    if i + pat.len() > s.len() || i < 0 {
        None
    } else if starts_with_at(s, i, pat) {
        Some(i)
    } else {
        find_from(s, i + 1, pat)
    }
}

/// End of line at `i`: the end of the input consumes nothing, a
/// line-break character is consumed; anything else fails.
pub open spec fn eol_end(s: Seq<char>, i: int) -> Option<int> {
    if i == s.len() {
        Some(i)
    } else if 0 <= i < s.len() && is_line_break(s[i]) {
        Some(i + 1)
    } else {
        None
    }
}

/// The run of leading quote marks: each `>` may be followed by one
/// separating space, regular or full-width. Returns the position
/// after the marks and how many there were.
pub open spec fn quote_marks_end(s: Seq<char>, i: int) -> (int, int)
    decreases s.len() - i,
{
    if 0 <= i < s.len() && s[i] == '>' {
        let after = if i + 1 < s.len() && (s[i + 1] == ' ' || s[i + 1] == '\u{3000}') {
            i + 2
        } else {
            i + 1
        };
        let (j, n) = quote_marks_end(s, after);
        (j, n + 1)
    } else {
        (i, 0)
    }
}

pub open spec fn small_open() -> Seq<char> {
    seq!['<', 's', 'm', 'a', 'l', 'l', '>']
}

pub open spec fn small_close() -> Seq<char> {
    seq!['<', '/', 's', 'm', 'a', 'l', 'l', '>']
}

pub open spec fn center_open() -> Seq<char> {
    seq!['<', 'c', 'e', 'n', 't', 'e', 'r', '>']
}

pub open spec fn center_close() -> Seq<char> {
    seq!['<', '/', 'c', 'e', 'n', 't', 'e', 'r', '>']
}

pub open spec fn plain_open() -> Seq<char> {
    seq!['<', 'p', 'l', 'a', 'i', 'n', '>']
}

pub open spec fn plain_close() -> Seq<char> {
    seq!['<', '/', 'p', 'l', 'a', 'i', 'n', '>']
}

/// Span items from `i` up to and including a closing tag. `None`
/// when the input ends before the closing tag appears.
pub open spec fn until_close(s: Seq<char>, i: int, close: Seq<char>, depth: int) -> Option<
    (int, Seq<RawNodeView>),
>
    decreases s.len() - i, 3int,
{
    if starts_with_at(s, i, close) {
        Some((i + close.len(), Seq::empty()))
    } else if 0 <= i < s.len() {
        match span_item(s, i, depth) {
            Some((j, node)) => {
                if i < j <= s.len() {
                    match until_close(s, j, close, depth) {
                        Some((k, rest)) => Some((k, seq![node] + rest)),
                        None => None,
                    }
                } else {
                    None
                }
            },
            None => None,
        }
    } else {
        None
    }
}

/// A `small` wrapper: the opening tag, non-empty span items, the
/// closing tag.
pub open spec fn small_tag(s: Seq<char>, i: int, depth: int) -> Option<(int, RawNodeView)>
    decreases s.len() - i, 1int,
{
    if depth > 0 && starts_with_at(s, i, small_open()) {
        match until_close(s, i + 7, small_close(), depth - 1) {
            Some((j, xs)) => {
                if xs.len() > 0 {
                    Some((j, RawNodeView::Small(Box::new(RawNodeView::Span(xs)))))
                } else {
                    None
                }
            },
            None => None,
        }
    } else {
        None
    }
}

/// A `center` wrapper: only at the head of a line; the opening tag,
/// non-empty span items, the closing tag, and a lookahead requiring
/// the closing tag to stand at the end of its line.
pub open spec fn center_tag(s: Seq<char>, i: int, depth: int) -> Option<(int, RawNodeView)>
    decreases s.len() - i, 1int,
{
    if depth > 0 && line_head_at(s, i) && starts_with_at(s, i, center_open()) {
        match until_close(s, i + 8, center_close(), depth - 1) {
            Some((j, xs)) => {
                if xs.len() > 0 && eol_end(s, j) is Some {
                    Some((j, RawNodeView::Center(Box::new(RawNodeView::Span(xs)))))
                } else {
                    None
                }
            },
            None => None,
        }
    } else {
        None
    }
}

/// A `plain` wrapper: raw, uninterpreted text up to the first closing
/// tag; the content must be non-empty.
pub open spec fn plain_tag(s: Seq<char>, i: int) -> Option<(int, RawNodeView)> {
    if starts_with_at(s, i, plain_open()) {
        match find_from(s, i + 7, plain_close()) {
            Some(n) => {
                if n > i + 7 {
                    Some((n + 8, RawNodeView::PlainTag(s.subrange(i + 7, n))))
                } else {
                    None
                }
            },
            None => None,
        }
    } else {
        None
    }
}

/// The content of a quote line: span items until a line break (which
/// is consumed) or the end of the input.
pub open spec fn quote_body(s: Seq<char>, i: int, depth: int) -> (int, Seq<RawNodeView>)
    decreases s.len() - i, 3int,
{
    match eol_end(s, i) {
        Some(j) => (j, Seq::empty()),
        None => match span_item(s, i, depth) {
            Some((j, node)) => {
                if i < j <= s.len() {
                    let (k, rest) = quote_body(s, j, depth);
                    (k, seq![node] + rest)
                } else {
                    (i, Seq::empty())
                }
            },
            None => (i, Seq::empty()),
        },
    }
}

/// A block quote: only at the head of a line; one or more `>` marks
/// (their count is the quote depth), then span items until the line
/// ends.
pub open spec fn quote(s: Seq<char>, i: int, depth: int) -> Option<(int, RawNodeView)>
    decreases s.len() - i, 1int,
{
    if depth > 0 && line_head_at(s, i) && 0 <= i < s.len() && s[i] == '>' {
        let (j, n) = quote_marks_end(s, i);
        if i < j <= s.len() {
            let (k, xs) = quote_body(s, j, depth - 1);
            Some((k, RawNodeView::Quote(n, Box::new(RawNodeView::Span(xs)))))
        } else {
            None
        }
    } else {
        None
    }
}

/// The dispatcher: all recognizers in their fixed priority order,
/// ending with the single-character fallback, which fails only at the
/// end of the input.
pub open spec fn span_item(s: Seq<char>, i: int, depth: int) -> Option<(int, RawNodeView)>
    decreases s.len() - i, 2int,
{
    match global_user(s, i) {
        Some(r) => Some(r),
        None => match local_user(s, i) {
            Some(r) => Some(r),
            None => match custom_emoji(s, i) {
                Some(r) => Some(r),
                None => match hashtag(s, i, depth) {
                    Some(r) => Some(r),
                    None => match small_tag(s, i, depth) {
                        Some(r) => Some(r),
                        None => match center_tag(s, i, depth) {
                            Some(r) => Some(r),
                            None => match plain_tag(s, i) {
                                Some(r) => Some(r),
                                None => match quote(s, i, depth) {
                                    Some(r) => Some(r),
                                    None => {
                                        if 0 <= i < s.len() {
                                            Some((i + 1, RawNodeView::Char(s[i])))
                                        } else {
                                            None
                                        }
                                    },
                                },
                            },
                        },
                    },
                },
            },
        },
    }
}

/// The whole input as a list of span items.
pub open spec fn text_items(s: Seq<char>, i: int, depth: int) -> Seq<RawNodeView>
    decreases s.len() - i, 3int,
{
    if 0 <= i < s.len() {
        match span_item(s, i, depth) {
            Some((j, node)) => {
                if i < j <= s.len() {
                    seq![node] + text_items(s, j, depth)
                } else {
                    Seq::empty()
                }
            },
            None => Seq::empty(),
        }
    } else {
        Seq::empty()
    }
}

/// The raw parse tree of the whole input.
pub open spec fn parse_raw(s: Seq<char>) -> RawNodeView {
    RawNodeView::Span(text_items(s, 0, MAX_NESTING_DEPTH as int))
}

/// The normalized tree of the whole input: what `parse_mfm` returns.
pub open spec fn parse(s: Seq<char>) -> crate::parser::node::NodeView {
    crate::parser::node::normalize_spec(parse_raw(s))
}

} // verus!
