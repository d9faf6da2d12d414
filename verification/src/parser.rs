//! The MFM parser: recognizers, dispatcher, normalizer and the
//! global-mention rewrite.

pub mod grammar;
pub mod input;
pub mod laws;
pub mod node;
pub mod utils;

use vstd::prelude::*;

pub use input::Input;
pub use node::{Node, RawNode};
pub use utils::is_line_break_char;

verus! {

use crate::parser::grammar::{
    is_ascii_alphanumeric, is_domain_char, is_hashtag_prohibited, is_open_bracket, is_word_char,
};
use crate::parser::node::RawNodeView;
use crate::parser::utils::{chars_of_str, string_of_range};

/// Exec mirror of [`is_word_char`].
fn word_char(c: char) -> (r: bool)
    ensures
        r == is_word_char(c),
{
    ('0' <= c && c <= '9') || ('A' <= c && c <= 'Z') || c == '_' || ('a' <= c && c <= 'z')
}

/// Exec mirror of [`is_domain_char`].
fn domain_char(c: char) -> (r: bool)
    ensures
        r == is_domain_char(c),
{
    c == '-' || ('0' <= c && c <= '9') || ('A' <= c && c <= 'Z') || ('a' <= c && c <= 'z')
}

/// Exec mirror of [`is_ascii_alphanumeric`].
fn ascii_alphanumeric(c: char) -> (r: bool)
    ensures
        r == is_ascii_alphanumeric(c),
{
    ('0' <= c && c <= '9') || ('A' <= c && c <= 'Z') || ('a' <= c && c <= 'z')
}

/// Exec mirror of [`is_hashtag_prohibited`].
fn hashtag_prohibited(c: char) -> (r: bool)
    ensures
        r == is_hashtag_prohibited(c),
{
    c == ' ' || c == '\u{3000}' || c == '\t' || c == '\r' || c == '\n' || c == '.' || c == ','
        || c == '!' || c == '?' || c == '\'' || c == '"' || c == '#' || c == ':' || c == '/'
        || c == '[' || c == '\\' || c == ']' || c == '【' || c == '】' || c == '(' || c == ')'
        || c == '「' || c == '」' || c == '（' || c == '）' || c == '<' || c == '>'
}

/// The end of the maximal run of word characters from `i`.
#[verifier::loop_isolation(false)]
fn word_run(text: &Vec<char>, i: usize) -> (e: usize)
    requires
        i <= text@.len(),
    ensures
        e == grammar::word_run_end(text@, i as int),
        i <= e <= text@.len(),
{
    let mut e = i;
    while e < text.len() && word_char(text[e])
        invariant
            i <= e <= text@.len(),
            grammar::word_run_end(text@, i as int) == grammar::word_run_end(text@, e as int),
        decreases text@.len() - e,
    {
        e = e + 1;
    }
    e
}

/// The end of the maximal run of domain characters from `i`.
#[verifier::loop_isolation(false)]
fn domain_label_run(text: &Vec<char>, i: usize) -> (e: usize)
    requires
        i <= text@.len(),
    ensures
        e == grammar::domain_label_end(text@, i as int),
        i <= e <= text@.len(),
{
    let mut e = i;
    while e < text.len() && domain_char(text[e])
        invariant
            i <= e <= text@.len(),
            grammar::domain_label_end(text@, i as int) == grammar::domain_label_end(
                text@,
                e as int,
            ),
        decreases text@.len() - e,
    {
        e = e + 1;
    }
    e
}

/// The end of the maximal run of zero-width spaces from `i`.
#[verifier::loop_isolation(false)]
fn zwsp_run(text: &Vec<char>, i: usize) -> (e: usize)
    requires
        i <= text@.len(),
    ensures
        e == grammar::zwsp_run_end(text@, i as int),
        i <= e <= text@.len(),
{
    let mut e = i;
    while e < text.len() && text[e] == '\u{200B}'
        invariant
            i <= e <= text@.len(),
            grammar::zwsp_run_end(text@, i as int) == grammar::zwsp_run_end(text@, e as int),
        decreases text@.len() - e,
    {
        e = e + 1;
    }
    e
}

/// Whether `pat` occurs in the text starting exactly at `i`.
#[verifier::loop_isolation(false)]
fn tag_at(text: &Vec<char>, i: usize, pat: &Vec<char>) -> (r: bool)
    ensures
        r == grammar::starts_with_at(text@, i as int, pat@),
{
    if i > text.len() || pat.len() > text.len() - i {
        return false;
    }
    let mut k: usize = 0;
    while k < pat.len()
        invariant
            0 <= k <= pat@.len(),
            i + pat@.len() <= text@.len(),
            forall|m: int| 0 <= m < k ==> text@[i + m] == pat@[m],
        decreases pat@.len() - k,
    {
        if text[i + k] != pat[k] {
            proof {
                assert(!grammar::starts_with_at(text@, i as int, pat@)) by {
                    if grammar::starts_with_at(text@, i as int, pat@) {
                        assert(text@.subrange(i as int, i + pat@.len())[k as int]
                            == pat@[k as int]);
                    }
                }
            }
            return false;
        }
        k = k + 1;
    }
    proof {
        assert(text@.subrange(i as int, i + pat@.len()) =~= pat@);
    }
    true
}

/// The first occurrence of `pat` at or after `i`, if any.
#[verifier::loop_isolation(false)]
fn find_tag_from(text: &Vec<char>, i: usize, pat: &Vec<char>) -> (r: Option<usize>)
    requires
        i <= text@.len(),
        pat@.len() >= 1,
    ensures
        match r {
            Some(n) => grammar::find_from(text@, i as int, pat@) == Some(n as int) && i <= n
                && n + pat@.len() <= text@.len(),
            None => grammar::find_from(text@, i as int, pat@) is None,
        },
{
    let mut p = i;
    while text.len() >= pat.len() && p <= text.len() - pat.len()
        invariant
            i <= p,
            p <= text@.len() + 1,
            grammar::find_from(text@, i as int, pat@) == grammar::find_from(text@, p as int, pat@),
        decreases text@.len() - p,
    {
        if tag_at(text, p, pat) {
            return Some(p);
        }
        p = p + 1;
    }
    None
}

/// A domain: dot-separated labels with an optional root dot; see
/// [`grammar::domain`].
#[verifier::loop_isolation(false)]
fn parse_domain(text: &Vec<char>, i: usize) -> (r: Option<(usize, Vec<String>)>)
    requires
        i <= text@.len(),
    ensures
        match r {
            Some((j, labels)) => grammar::domain(text@, i as int) == Some(
                (j as int, labels.deep_view()),
            ) && i <= j <= text@.len(),
            None => grammar::domain(text@, i as int) is None,
        },
{
    let e = domain_label_run(text, i);
    if !(e > i && text[i] != '-' && text[e - 1] != '-') {
        return None;
    }
    let mut labels: Vec<String> = Vec::new();
    labels.push(string_of_range(text, i, e));
    let ghost acc0 = seq![text@.subrange(i as int, e as int)];
    proof {
        assert(labels.deep_view() =~= acc0);
    }
    let mut p = e;
    let mut done = false;
    while !done
        invariant
            i <= p <= text@.len(),
            !done ==> grammar::domain_rest(text@, e as int, acc0) == grammar::domain_rest(
                text@,
                p as int,
                labels.deep_view(),
            ),
            done ==> grammar::domain_rest(text@, e as int, acc0) == (
                p as int,
                labels.deep_view(),
            ),
        decreases text@.len() - p + (if done {
            0int
        } else {
            1int
        }),
    {
        let ghost dv_pre = labels.deep_view();
        if p < text.len() && text[p] == '.' {
            let e2 = domain_label_run(text, p + 1);
            if e2 > p + 1 && text[p + 1] != '-' && text[e2 - 1] != '-' {
                labels.push(string_of_range(text, p + 1, e2));
                proof {
                    assert(labels.deep_view() =~= dv_pre.push(
                        text@.subrange(p + 1, e2 as int),
                    ));
                }
                p = e2;
            } else {
                labels.push(String::new());
                proof {
                    assert(labels.deep_view() =~= dv_pre.push(Seq::<char>::empty()));
                }
                p = p + 1;
                done = true;
            }
        } else {
            done = true;
        }
    }
    Some((p, labels))
}

/// A global mention; see [`grammar::global_user`].
fn parse_global_user(text: &Vec<char>, i: usize) -> (r: Option<(usize, RawNode)>)
    requires
        i <= text@.len(),
    ensures
        match r {
            Some((j, node)) => grammar::global_user(text@, i as int) == Some((j as int, node@))
                && i < j <= text@.len(),
            None => grammar::global_user(text@, i as int) is None,
        },
{
    if !(i < text.len() && text[i] == '@') {
        return None;
    }
    let w = word_run(text, i + 1);
    if !(w > i + 1 && w < text.len() && text[w] == '@') {
        return None;
    }
    match parse_domain(text, w + 1) {
        Some((j, labels)) => Some(
            (j, RawNode::GlobalUser(string_of_range(text, i + 1, w), labels)),
        ),
        None => None,
    }
}

/// A local mention; see [`grammar::local_user`].
fn parse_local_user(text: &Vec<char>, i: usize) -> (r: Option<(usize, RawNode)>)
    requires
        i <= text@.len(),
    ensures
        match r {
            Some((j, node)) => grammar::local_user(text@, i as int) == Some((j as int, node@))
                && i < j <= text@.len(),
            None => grammar::local_user(text@, i as int) is None,
        },
{
    if !(i < text.len() && text[i] == '@') {
        return None;
    }
    let w = word_run(text, i + 1);
    if w > i + 1 {
        Some((w, RawNode::LocalUser(string_of_range(text, i + 1, w))))
    } else {
        None
    }
}

/// A custom-emoji shortcode; see [`grammar::custom_emoji`].
fn parse_local_custom_emoji(text: &Vec<char>, i: usize) -> (r: Option<(usize, RawNode)>)
    requires
        i <= text@.len(),
    ensures
        match r {
            Some((j, node)) => grammar::custom_emoji(text@, i as int) == Some((j as int, node@))
                && i < j <= text@.len(),
            None => grammar::custom_emoji(text@, i as int) is None,
        },
{
    let z0 = zwsp_run(text, i);
    if !(z0 < text.len() && text[z0] == ':') {
        return None;
    }
    let w = word_run(text, z0 + 1);
    if !(w > z0 + 1 && w < text.len() && text[w] == ':') {
        return None;
    }
    let z1 = zwsp_run(text, w + 1);
    if z1 == text.len() || !ascii_alphanumeric(text[z1]) {
        Some((z1, RawNode::LocalCustomEmoji(string_of_range(text, z0 + 1, w))))
    } else {
        None
    }
}

/// The closing bracket matching an opening one.
fn close_bracket_of(c: char) -> (r: char)
    requires
        is_open_bracket(c),
    ensures
        r == grammar::close_of(c),
{
    if c == '(' {
        ')'
    } else if c == '[' {
        ']'
    } else if c == '「' {
        '」'
    } else {
        '）'
    }
}

/// One hashtag item; see [`grammar::hashtag_item_end`].
fn hashtag_item(text: &Vec<char>, i: usize, depth: usize) -> (r: Option<usize>)
    requires
        i <= text@.len(),
    ensures
        match r {
            Some(j) => grammar::hashtag_item_end(text@, i as int, depth as int) == Some(j as int)
                && i < j <= text@.len(),
            None => grammar::hashtag_item_end(text@, i as int, depth as int) is None,
        },
    decreases text@.len() - i, 0int,
{
    if i >= text.len() {
        return None;
    }
    let c = text[i];
    if c == '(' || c == '[' || c == '「' || c == '（' {
        if depth == 0 {
            return None;
        }
        let j = hashtag_items(text, i + 1, depth - 1);
        if j < text.len() && text[j] == close_bracket_of(c) {
            Some(j + 1)
        } else {
            None
        }
    } else if !hashtag_prohibited(c) {
        Some(i + 1)
    } else {
        None
    }
}

/// The maximal run of hashtag items; see
/// [`grammar::hashtag_items_end`].
#[verifier::loop_isolation(false)]
fn hashtag_items(text: &Vec<char>, i: usize, depth: usize) -> (e: usize)
    requires
        i <= text@.len(),
    ensures
        e == grammar::hashtag_items_end(text@, i as int, depth as int),
        i <= e <= text@.len(),
    decreases text@.len() - i, 1int,
{
    let mut p = i;
    let mut done = false;
    while !done
        invariant
            i <= p <= text@.len(),
            !done ==> grammar::hashtag_items_end(text@, i as int, depth as int)
                == grammar::hashtag_items_end(text@, p as int, depth as int),
            done ==> grammar::hashtag_items_end(text@, i as int, depth as int) == p as int,
        decreases text@.len() - p + (if done {
            0int
        } else {
            1int
        }),
    {
        match hashtag_item(text, p, depth) {
            Some(j) => {
                p = j;
            },
            None => {
                done = true;
            },
        }
    }
    p
}

/// A hashtag; see [`grammar::hashtag`].
fn parse_hashtag(text: &Vec<char>, i: usize, depth: usize) -> (r: Option<(usize, RawNode)>)
    requires
        i <= text@.len(),
    ensures
        match r {
            Some((j, node)) => grammar::hashtag(text@, i as int, depth as int) == Some(
                (j as int, node@),
            ) && i < j <= text@.len(),
            None => grammar::hashtag(text@, i as int, depth as int) is None,
        },
{
    if !(i < text.len() && text[i] == '#') {
        return None;
    }
    let j = hashtag_items(text, i + 1, depth);
    if j > i + 1 {
        Some((j, RawNode::HashTag(string_of_range(text, i + 1, j))))
    } else {
        None
    }
}

/// Whether position `i` is at the head of a line.
fn line_head(text: &Vec<char>, i: usize) -> (r: bool)
    requires
        i <= text@.len(),
    ensures
        r == grammar::line_head_at(text@, i as int),
{
    i == 0 || is_line_break_char(text[i - 1])
}

/// End of line at `i`; see [`grammar::eol_end`].
fn eol_at(text: &Vec<char>, i: usize) -> (r: Option<usize>)
    requires
        i <= text@.len(),
    ensures
        match r {
            Some(j) => grammar::eol_end(text@, i as int) == Some(j as int) && i <= j
                <= text@.len(),
            None => grammar::eol_end(text@, i as int) is None,
        },
{
    if i == text.len() {
        Some(i)
    } else if is_line_break_char(text[i]) {
        Some(i + 1)
    } else {
        None
    }
}

/// The leading quote marks; see [`grammar::quote_marks_end`].
#[verifier::loop_isolation(false)]
fn quote_marks(text: &Vec<char>, i: usize) -> (r: (usize, usize))
    requires
        i <= text@.len(),
    ensures
        grammar::quote_marks_end(text@, i as int) == (r.0 as int, r.1 as int),
        i <= r.0 <= text@.len(),
        i < text@.len() && text@[i as int] == '>' ==> i < r.0,
{
    let mut p = i;
    let mut cnt: usize = 0;
    while p < text.len() && text[p] == '>'
        invariant
            i <= p <= text@.len(),
            cnt <= p - i,
            grammar::quote_marks_end(text@, i as int).0 == grammar::quote_marks_end(
                text@,
                p as int,
            ).0,
            grammar::quote_marks_end(text@, i as int).1 == grammar::quote_marks_end(
                text@,
                p as int,
            ).1 + cnt,
            cnt > 0 ==> p > i,
        decreases text@.len() - p,
    {
        if p + 1 < text.len() && (text[p + 1] == ' ' || text[p + 1] == '\u{3000}') {
            p = p + 2;
        } else {
            p = p + 1;
        }
        cnt = cnt + 1;
    }
    (p, cnt)
}

/// The opening `small` tag as characters.
fn small_open_chars() -> (v: Vec<char>)
    ensures
        v@ == grammar::small_open(),
{
    let v = chars_of_str("<small>");
    proof {
        reveal_strlit("<small>");
        assert(v@ =~= grammar::small_open());
    }
    v
}

/// The closing `small` tag as characters.
fn small_close_chars() -> (v: Vec<char>)
    ensures
        v@ == grammar::small_close(),
{
    let v = chars_of_str("</small>");
    proof {
        reveal_strlit("</small>");
        assert(v@ =~= grammar::small_close());
    }
    v
}

/// The opening `center` tag as characters.
fn center_open_chars() -> (v: Vec<char>)
    ensures
        v@ == grammar::center_open(),
{
    let v = chars_of_str("<center>");
    proof {
        reveal_strlit("<center>");
        assert(v@ =~= grammar::center_open());
    }
    v
}

/// The closing `center` tag as characters.
fn center_close_chars() -> (v: Vec<char>)
    ensures
        v@ == grammar::center_close(),
{
    let v = chars_of_str("</center>");
    proof {
        reveal_strlit("</center>");
        assert(v@ =~= grammar::center_close());
    }
    v
}

/// The opening `plain` tag as characters.
fn plain_open_chars() -> (v: Vec<char>)
    ensures
        v@ == grammar::plain_open(),
{
    let v = chars_of_str("<plain>");
    proof {
        reveal_strlit("<plain>");
        assert(v@ =~= grammar::plain_open());
    }
    v
}

/// The closing `plain` tag as characters.
fn plain_close_chars() -> (v: Vec<char>)
    ensures
        v@ == grammar::plain_close(),
{
    let v = chars_of_str("</plain>");
    proof {
        reveal_strlit("</plain>");
        assert(v@ =~= grammar::plain_close());
    }
    v
}

/// Span items up to and including the closing tag; see
/// [`grammar::until_close`].
#[verifier::loop_isolation(false)]
fn parse_until_close(text: &Vec<char>, i: usize, close: &Vec<char>, depth: usize) -> (r: Option<
    (usize, Vec<RawNode>),
>)
    requires
        i <= text@.len(),
        close@.len() >= 1,
    ensures
        match r {
            Some((j, xs)) => grammar::until_close(text@, i as int, close@, depth as int) == Some(
                (j as int, node::raw_view_list(xs@)),
            ) && i < j <= text@.len(),
            None => grammar::until_close(text@, i as int, close@, depth as int) is None,
        },
    decreases text@.len() - i, 3int,
{
    let ghost s = text@;
    let ghost c = close@;
    let ghost d = depth as int;
    let mut p = i;
    let mut items: Vec<RawNode> = Vec::new();
    proof {
        assert(text.len() == text@.len());
        assert(node::raw_view_list(Seq::<RawNode>::empty()) == Seq::<RawNodeView>::empty());
    }
    while !tag_at(text, p, close)
        invariant
            i <= p <= s.len(),
            grammar::until_close(s, i as int, c, d) == (match grammar::until_close(
                s,
                p as int,
                c,
                d,
            ) {
                Some((k, rest)) => Some((k, node::raw_view_list(items@) + rest)),
                None => None,
            }),
        decreases s.len() - p,
    {
        if p == text.len() {
            return None;
        }
        let ghost items_pre = items@;
        match parse_span_item(text, p, depth) {
            Some((j, node)) => {
                proof {
                    node::lemma_rvl_push(items_pre, node);
                }
                items.push(node);
                proof {
                    if let Some((k, rest)) = grammar::until_close(s, j as int, c, d) {
                        assert(node::raw_view_list(items@) + rest =~= node::raw_view_list(
                            items_pre,
                        ) + (seq![node@] + rest));
                    }
                }
                p = j;
            },
            None => {
                return vstd::pervasive::unreached();
            },
        }
    }
    proof {
        assert(grammar::until_close(s, p as int, c, d) == Some(
            (p + c.len(), Seq::<RawNodeView>::empty()),
        ));
        assert(node::raw_view_list(items@) + Seq::<RawNodeView>::empty() =~= node::raw_view_list(
            items@,
        ));
    }
    Some((p + close.len(), items))
}

/// A `small` wrapper; see [`grammar::small_tag`].
fn parse_small(text: &Vec<char>, i: usize, depth: usize) -> (r: Option<(usize, RawNode)>)
    requires
        i <= text@.len(),
    ensures
        match r {
            Some((j, node)) => grammar::small_tag(text@, i as int, depth as int) == Some(
                (j as int, node@),
            ) && i < j <= text@.len(),
            None => grammar::small_tag(text@, i as int, depth as int) is None,
        },
    decreases text@.len() - i, 1int,
{
    if depth == 0 {
        return None;
    }
    let open = small_open_chars();
    if !tag_at(text, i, &open) {
        return None;
    }
    proof {
        assert(text.len() == text@.len());
    }
    let close = small_close_chars();
    match parse_until_close(text, i + 7, &close, depth - 1) {
        Some((j, xs)) => {
            proof {
                node::lemma_raw_view_list(xs@);
            }
            if xs.len() > 0 {
                let inner = RawNode::Span(xs);
                proof {
                    assert(inner@ == RawNodeView::Span(node::raw_view_list(inner->Span_0@)));
                }
                Some((j, RawNode::Small(Box::new(inner))))
            } else {
                None
            }
        },
        None => None,
    }
}

/// A `center` wrapper; see [`grammar::center_tag`].
fn parse_center(text: &Vec<char>, i: usize, depth: usize) -> (r: Option<(usize, RawNode)>)
    requires
        i <= text@.len(),
    ensures
        match r {
            Some((j, node)) => grammar::center_tag(text@, i as int, depth as int) == Some(
                (j as int, node@),
            ) && i < j <= text@.len(),
            None => grammar::center_tag(text@, i as int, depth as int) is None,
        },
    decreases text@.len() - i, 1int,
{
    if depth == 0 {
        return None;
    }
    if !line_head(text, i) {
        return None;
    }
    let open = center_open_chars();
    if !tag_at(text, i, &open) {
        return None;
    }
    proof {
        assert(text.len() == text@.len());
    }
    let close = center_close_chars();
    match parse_until_close(text, i + 8, &close, depth - 1) {
        Some((j, xs)) => {
            proof {
                node::lemma_raw_view_list(xs@);
            }
            if xs.len() > 0 && eol_at(text, j).is_some() {
                let inner = RawNode::Span(xs);
                proof {
                    assert(inner@ == RawNodeView::Span(node::raw_view_list(inner->Span_0@)));
                }
                Some((j, RawNode::Center(Box::new(inner))))
            } else {
                None
            }
        },
        None => None,
    }
}

/// A `plain` wrapper; see [`grammar::plain_tag`].
fn parse_plain_tag(text: &Vec<char>, i: usize) -> (r: Option<(usize, RawNode)>)
    requires
        i <= text@.len(),
    ensures
        match r {
            Some((j, node)) => grammar::plain_tag(text@, i as int) == Some((j as int, node@))
                && i < j <= text@.len(),
            None => grammar::plain_tag(text@, i as int) is None,
        },
{
    let open = plain_open_chars();
    if !tag_at(text, i, &open) {
        return None;
    }
    proof {
        assert(text.len() == text@.len());
    }
    let close = plain_close_chars();
    match find_tag_from(text, i + 7, &close) {
        Some(n) => {
            if n > i + 7 {
                Some((n + 8, RawNode::PlainTag(string_of_range(text, i + 7, n))))
            } else {
                None
            }
        },
        None => None,
    }
}

/// The content of a quote line; see [`grammar::quote_body`].
#[verifier::loop_isolation(false)]
fn parse_quote_body(text: &Vec<char>, start: usize, depth: usize) -> (r: (usize, Vec<RawNode>))
    requires
        start <= text@.len(),
    ensures
        grammar::quote_body(text@, start as int, depth as int) == (
            r.0 as int,
            node::raw_view_list(r.1@),
        ),
        start <= r.0 <= text@.len(),
    decreases text@.len() - start, 3int,
{
    let ghost s = text@;
    let ghost d = depth as int;
    let mut p = start;
    let mut endpos: usize = start;
    let mut items: Vec<RawNode> = Vec::new();
    let mut done = false;
    proof {
        assert(node::raw_view_list(Seq::<RawNode>::empty()) == Seq::<RawNodeView>::empty());
    }
    while !done
        invariant
            start <= p <= s.len(),
            done ==> start <= endpos <= s.len(),
            !done ==> grammar::quote_body(s, start as int, d) == ({
                let (k, rest) = grammar::quote_body(s, p as int, d);
                (k, node::raw_view_list(items@) + rest)
            }),
            done ==> grammar::quote_body(s, start as int, d) == (
                endpos as int,
                node::raw_view_list(items@),
            ),
        decreases s.len() - p + (if done {
            0int
        } else {
            1int
        }),
    {
        let ghost items_pre = items@;
        match eol_at(text, p) {
            Some(j) => {
                endpos = j;
                done = true;
                proof {
                    assert(node::raw_view_list(items@) + Seq::<RawNodeView>::empty()
                        =~= node::raw_view_list(items@));
                }
            },
            None => {
                match parse_span_item(text, p, depth) {
                    Some((j, node)) => {
                        proof {
                            node::lemma_rvl_push(items_pre, node);
                            let (k, rest) = grammar::quote_body(s, j as int, d);
                            assert(node::raw_view_list(items_pre.push(node)) + rest
                                =~= node::raw_view_list(items_pre) + (seq![node@] + rest));
                        }
                        items.push(node);
                        p = j;
                    },
                    None => {
                        return vstd::pervasive::unreached();
                    },
                }
            },
        }
    }
    (endpos, items)
}

/// A block quote; see [`grammar::quote`].
fn parse_quote(text: &Vec<char>, i: usize, depth: usize) -> (r: Option<(usize, RawNode)>)
    requires
        i <= text@.len(),
    ensures
        match r {
            Some((j, node)) => grammar::quote(text@, i as int, depth as int) == Some(
                (j as int, node@),
            ) && i < j <= text@.len(),
            None => grammar::quote(text@, i as int, depth as int) is None,
        },
    decreases text@.len() - i, 1int,
{
    if depth == 0 {
        return None;
    }
    if !line_head(text, i) {
        return None;
    }
    if !(i < text.len() && text[i] == '>') {
        return None;
    }
    let (j, n) = quote_marks(text, i);
    let (k, xs) = parse_quote_body(text, j, depth - 1);
    let inner = RawNode::Span(xs);
    proof {
        assert(inner@ == RawNodeView::Span(node::raw_view_list(inner->Span_0@)));
    }
    Some((k, RawNode::Quote(n, Box::new(inner))))
}

/// A single literal character as a node.
fn char_node(c: char) -> (r: RawNode)
    ensures
        r@ == RawNodeView::Char(c),
{
    let r = RawNode::Char(c);
    proof {
        let witness = RawNode::Char(c);
        assert(node::raw_node_view(witness) == RawNodeView::Char(c));
    }
    r
}

/// The dispatcher: every recognizer in priority order, then the
/// single-character fallback; see [`grammar::span_item`]. Fails only
/// at the end of the input.
fn parse_span_item(text: &Vec<char>, i: usize, depth: usize) -> (r: Option<(usize, RawNode)>)
    requires
        i <= text@.len(),
    ensures
        match r {
            Some((j, node)) => grammar::span_item(text@, i as int, depth as int) == Some(
                (j as int, node@),
            ) && i < j <= text@.len(),
            None => grammar::span_item(text@, i as int, depth as int) is None && i == text@.len(),
        },
    decreases text@.len() - i, 2int,
{
    if let Some(r) = parse_global_user(text, i) {
        return Some(r);
    }
    if let Some(r) = parse_local_user(text, i) {
        return Some(r);
    }
    if let Some(r) = parse_local_custom_emoji(text, i) {
        return Some(r);
    }
    if let Some(r) = parse_hashtag(text, i, depth) {
        return Some(r);
    }
    if let Some(r) = parse_small(text, i, depth) {
        return Some(r);
    }
    if let Some(r) = parse_center(text, i, depth) {
        return Some(r);
    }
    if let Some(r) = parse_plain_tag(text, i) {
        return Some(r);
    }
    if let Some(r) = parse_quote(text, i, depth) {
        return Some(r);
    }
    if i < text.len() {
        Some((i + 1, char_node(text[i])))
    } else {
        None
    }
}

/// Parse a whole text into the raw (parse-time) tree. Never fails:
/// the single-character fallback guarantees every input is consumed
/// entirely.
#[verifier::loop_isolation(false)]
pub fn parse_mfm_raw(input: &str) -> (r: RawNode)
    ensures
        r@ == grammar::parse_raw(input@),
{
    let inp = Input::new(input);
    let text = &inp.chars;
    let ghost s = text@;
    let ghost d = grammar::MAX_NESTING_DEPTH as int;
    let mut items: Vec<RawNode> = Vec::new();
    let mut p: usize = 0;
    proof {
        assert(node::raw_view_list(Seq::<RawNode>::empty()) == Seq::<RawNodeView>::empty());
        assert(Seq::<RawNodeView>::empty() + grammar::text_items(s, 0, d) =~= grammar::text_items(
            s,
            0,
            d,
        ));
    }
    while p < text.len()
        invariant
            p <= s.len(),
            grammar::text_items(s, 0, d) == node::raw_view_list(items@) + grammar::text_items(
                s,
                p as int,
                d,
            ),
        decreases s.len() - p,
    {
        let ghost items_pre = items@;
        match parse_span_item(text, p, grammar::MAX_NESTING_DEPTH) {
            Some((j, node)) => {
                proof {
                    node::lemma_rvl_push(items_pre, node);
                    assert(node::raw_view_list(items_pre.push(node)) + grammar::text_items(
                        s,
                        j as int,
                        d,
                    ) =~= node::raw_view_list(items_pre) + (seq![node@] + grammar::text_items(
                        s,
                        j as int,
                        d,
                    )));
                }
                items.push(node);
                p = j;
            },
            None => {
                return vstd::pervasive::unreached();
            },
        }
    }
    proof {
        assert(grammar::text_items(s, p as int, d) == Seq::<RawNodeView>::empty());
        assert(node::raw_view_list(items@) + Seq::<RawNodeView>::empty() =~= node::raw_view_list(
            items@,
        ));
    }
    RawNode::Span(items)
}

/// Parse a whole text into the normalized tree: the single entry
/// point of the parser. Total: every string yields a tree, the empty
/// string yields `Empty`.
pub fn parse_mfm(input: &str) -> (r: Node)
    ensures
        r@ == grammar::parse(input@),
        node::well_formed(r@),
{
    proof {
        laws::lemma_parse_well_formed(input@);
    }
    let raw = parse_mfm_raw(input);
    raw.flatten().into_node()
}

} // verus!
