//! The laws the parser and the rewrite obey, stated and proved over
//! the views: every normalized tree is well formed, and the global
//! rewrite is idempotent.

use vstd::prelude::*;

verus! {

use crate::parser::grammar;
use crate::parser::node::{
    flat, flatten_list_spec, flatten_spec, into_global_list_spec, into_global_spec,
    lower_list_spec, lower_spec, no_local_user, normalize_spec, well_formed, NodeView,
    RawNodeView,
};

/// The first normalization pass flattens a list of children: nothing
/// in the result is a `Span`, and everything in it is flat.
proof fn lemma_flatten_list_flat(cs: Seq<RawNodeView>)
    ensures
        forall|k: int|
            0 <= k < flatten_list_spec(cs).len() ==> !((#[trigger] flatten_list_spec(cs)[k])
                is Span) && flat(flatten_list_spec(cs)[k]),
    decreases cs,
{
    if cs.len() > 0 {
        lemma_flatten_flat(cs[0]);
        lemma_flatten_list_flat(cs.drop_first());
        let head = flatten_spec(cs[0]);
        let rest = flatten_list_spec(cs.drop_first());
        match head {
            RawNodeView::Span(gs) => {
                assert(flatten_list_spec(cs) == gs + rest);
                assert forall|k: int|
                    0 <= k < flatten_list_spec(cs).len() implies !((#[trigger] flatten_list_spec(
                    cs,
                )[k]) is Span) && flat(flatten_list_spec(cs)[k]) by {
                    if k < gs.len() {
                        assert(flatten_list_spec(cs)[k] == gs[k]);
                    } else {
                        assert(flatten_list_spec(cs)[k] == rest[k - gs.len()]);
                    }
                }
            },
            _ => {
                assert(flatten_list_spec(cs) == seq![head] + rest);
                assert forall|k: int|
                    0 <= k < flatten_list_spec(cs).len() implies !((#[trigger] flatten_list_spec(
                    cs,
                )[k]) is Span) && flat(flatten_list_spec(cs)[k]) by {
                    if k >= 1 {
                        assert(flatten_list_spec(cs)[k] == rest[k - 1]);
                    }
                }
            },
        }
    }
}

/// The first normalization pass leaves a flat tree.
proof fn lemma_flatten_flat(n: RawNodeView)
    ensures
        flat(flatten_spec(n)),
    decreases n,
{
    match n {
        RawNodeView::Span(cs) => {
            lemma_flatten_list_flat(cs);
        },
        RawNodeView::Small(c) => lemma_flatten_flat(*c),
        RawNodeView::Center(c) => lemma_flatten_flat(*c),
        RawNodeView::Quote(_, c) => lemma_flatten_flat(*c),
        _ => {},
    }
}

/// The second pass turns a non-`Span` node into a non-`Span` node.
proof fn lemma_lower_not_span(n: RawNodeView)
    requires
        !(n is Span),
    ensures
        !(lower_spec(n) is Span),
{
}

/// The second pass turns a list of flat, non-`Span` children into
/// well-formed, non-`Span` children with no empty text run.
proof fn lemma_lower_list_wf(cs: Seq<RawNodeView>)
    requires
        forall|k: int| 0 <= k < cs.len() ==> !((#[trigger] cs[k]) is Span) && flat(cs[k]),
    ensures
        forall|k: int|
            0 <= k < lower_list_spec(cs).len() ==> !((#[trigger] lower_list_spec(cs)[k]) is Span)
                && well_formed(lower_list_spec(cs)[k]),
    decreases cs,
{
    if cs.len() > 0 {
        assert(forall|k: int|
            0 <= k < cs.drop_last().len() ==> !((#[trigger] cs.drop_last()[k]) is Span) && flat(
                cs.drop_last()[k],
            ));
        lemma_lower_list_wf(cs.drop_last());
        let r = lower_list_spec(cs.drop_last());
        match cs.last() {
            RawNodeView::Char(c) => {
                if r.len() > 0 && r.last() is Plain {
                    let merged = NodeView::Plain(r.last()->Plain_0.push(c));
                    assert(well_formed(r.last()));
                    assert(well_formed(merged));
                    assert(lower_list_spec(cs) == r.update(r.len() - 1, merged));
                } else {
                    assert(well_formed(NodeView::Plain(seq![c])));
                }
            },
            other => {
                lemma_lower_wf(other);
                lemma_lower_not_span(other);
            },
        }
    }
}

/// The second pass turns a flat tree into a well-formed one.
proof fn lemma_lower_wf(n: RawNodeView)
    requires
        flat(n),
    ensures
        well_formed(lower_spec(n)),
    decreases n,
{
    match n {
        RawNodeView::Span(cs) => {
            lemma_lower_list_wf(cs);
            let r = lower_list_spec(cs);
            if r.len() >= 2 {
                assert(well_formed(NodeView::Span(r)));
            }
        },
        RawNodeView::Small(c) => lemma_lower_wf(*c),
        RawNodeView::Center(c) => lemma_lower_wf(*c),
        RawNodeView::Quote(_, c) => lemma_lower_wf(*c),
        _ => {},
    }
}

/// Normalization yields a well-formed tree: no `Sequence` of fewer
/// than two children survives, none nests directly in another, and no
/// text run is empty.
pub proof fn lemma_normalize_well_formed(n: RawNodeView)
    ensures
        well_formed(normalize_spec(n)),
{
    lemma_flatten_flat(n);
    lemma_lower_wf(flatten_spec(n));
}

/// The parser is total and every tree it can return is well formed:
/// for every input string there is a result, and every `Sequence`
/// node in it has at least two children.
pub proof fn lemma_parse_well_formed(s: Seq<char>)
    ensures
        well_formed(grammar::parse(s)),
{
    lemma_normalize_well_formed(grammar::parse_raw(s));
}

/// After the global rewrite no local mention remains in a child list.
proof fn lemma_into_global_list_no_local(cs: Seq<NodeView>, host: Seq<Seq<char>>)
    ensures
        forall|k: int|
            0 <= k < into_global_list_spec(cs, host).len() ==> no_local_user(
                #[trigger] into_global_list_spec(cs, host)[k],
            ),
    decreases cs,
{
    if cs.len() > 0 {
        lemma_into_global_no_local(cs[0], host);
        lemma_into_global_list_no_local(cs.drop_first(), host);
        let rest = into_global_list_spec(cs.drop_first(), host);
        assert forall|k: int|
            0 <= k < into_global_list_spec(cs, host).len() implies no_local_user(
            #[trigger] into_global_list_spec(cs, host)[k],
        ) by {
            if k >= 1 {
                assert(into_global_list_spec(cs, host)[k] == rest[k - 1]);
            }
        }
    }
}

/// After the global rewrite no local mention remains anywhere.
pub proof fn lemma_into_global_no_local(n: NodeView, host: Seq<Seq<char>>)
    ensures
        no_local_user(into_global_spec(n, host)),
    decreases n,
{
    match n {
        NodeView::Span(cs) => {
            lemma_into_global_list_no_local(cs, host);
            assert(into_global_spec(n, host) == NodeView::Span(into_global_list_spec(cs, host)));
            assert(no_local_user(NodeView::Span(into_global_list_spec(cs, host))));
        },
        NodeView::Small(c) => lemma_into_global_no_local(*c, host),
        NodeView::Center(c) => lemma_into_global_no_local(*c, host),
        NodeView::Quote(_, c) => lemma_into_global_no_local(*c, host),
        _ => {},
    }
}

/// On a child list already free of local mentions the rewrite changes
/// nothing.
proof fn lemma_into_global_list_clean(cs: Seq<NodeView>, host: Seq<Seq<char>>)
    requires
        forall|k: int| 0 <= k < cs.len() ==> no_local_user(#[trigger] cs[k]),
    ensures
        into_global_list_spec(cs, host) == cs,
    decreases cs,
{
    if cs.len() > 0 {
        lemma_into_global_clean(cs[0], host);
        lemma_into_global_list_clean(cs.drop_first(), host);
        assert(into_global_list_spec(cs, host) =~= cs);
    }
}

/// On a tree already free of local mentions the rewrite changes
/// nothing.
pub proof fn lemma_into_global_clean(n: NodeView, host: Seq<Seq<char>>)
    requires
        no_local_user(n),
    ensures
        into_global_spec(n, host) == n,
    decreases n,
{
    match n {
        NodeView::Span(cs) => {
            lemma_into_global_list_clean(cs, host);
        },
        NodeView::Small(c) => lemma_into_global_clean(*c, host),
        NodeView::Center(c) => lemma_into_global_clean(*c, host),
        NodeView::Quote(_, c) => lemma_into_global_clean(*c, host),
        _ => {},
    }
}

/// The global rewrite is idempotent: applying it a second time, with
/// the same host, is a no-op.
pub proof fn lemma_into_global_idempotent(n: NodeView, host: Seq<Seq<char>>)
    ensures
        into_global_spec(into_global_spec(n, host), host) == into_global_spec(n, host),
{
    lemma_into_global_no_local(n, host);
    lemma_into_global_clean(into_global_spec(n, host), host);
}

} // verus!
