//! Syntax-tree node types: the parse-time tree, the normalized tree
//! handed to callers, and their mathematical views.

use vstd::prelude::*;

verus! {

use crate::parser::utils::{char_string, clone_host, push_char};

/// Parse-time tree. Produced by the recognizers, consumed by the
/// normalizer; callers normally see only the normalized [`Node`].
#[derive(Debug, PartialEq, Eq, Hash)]
pub enum RawNode {
    Span(Vec<RawNode>),
    GlobalUser(String, Vec<String>),
    LocalUser(String),
    LocalCustomEmoji(String),
    HashTag(String),
    Small(Box<RawNode>),
    Center(Box<RawNode>),
    PlainTag(String),
    Quote(usize, Box<RawNode>),
    Char(char),
}

/// Mathematical view of a [`RawNode`]: text becomes `Seq<char>`.
pub enum RawNodeView {
    Span(Seq<RawNodeView>),
    GlobalUser(Seq<char>, Seq<Seq<char>>),
    LocalUser(Seq<char>),
    LocalCustomEmoji(Seq<char>),
    HashTag(Seq<char>),
    Small(Box<RawNodeView>),
    Center(Box<RawNodeView>),
    PlainTag(Seq<char>),
    Quote(int, Box<RawNodeView>),
    Char(char),
}

pub open spec fn raw_view_list(cs: Seq<RawNode>) -> Seq<RawNodeView>
    decreases cs,
{
    if cs.len() == 0 {
        Seq::empty()
    } else {
        seq![raw_node_view(cs[0])] + raw_view_list(cs.drop_first())
    }
}

pub open spec fn raw_node_view(n: RawNode) -> RawNodeView
    decreases n,
{
    match n {
        RawNode::Span(cs) => RawNodeView::Span(raw_view_list(cs@)),
        RawNode::GlobalUser(name, host) => RawNodeView::GlobalUser(name@, host.deep_view()),
        RawNode::LocalUser(name) => RawNodeView::LocalUser(name@),
        RawNode::LocalCustomEmoji(name) => RawNodeView::LocalCustomEmoji(name@),
        RawNode::HashTag(text) => RawNodeView::HashTag(text@),
        RawNode::Small(c) => RawNodeView::Small(Box::new(raw_node_view(*c))),
        RawNode::Center(c) => RawNodeView::Center(Box::new(raw_node_view(*c))),
        RawNode::PlainTag(text) => RawNodeView::PlainTag(text@),
        RawNode::Quote(depth, c) => RawNodeView::Quote(
            depth as int,
            Box::new(raw_node_view(*c)),
        ),
        RawNode::Char(c) => RawNodeView::Char(c),
    }
}

impl View for RawNode {
    type V = RawNodeView;

    open spec fn view(&self) -> RawNodeView {
        raw_node_view(*self)
    }
}

/// Normalized, owned tree: the externally visible result of a parse.
#[derive(Debug, PartialEq, Eq, Hash)]
pub enum Node {
    Empty,
    Span(Vec<Node>),
    GlobalUser(String, Vec<String>),
    LocalUser(String),
    LocalCustomEmoji(String),
    HashTag(String),
    Small(Box<Node>),
    Center(Box<Node>),
    PlainTag(String),
    Quote(usize, Box<Node>),
    Plain(String),
}

/// Mathematical view of a [`Node`].
pub enum NodeView {
    Empty,
    Span(Seq<NodeView>),
    GlobalUser(Seq<char>, Seq<Seq<char>>),
    LocalUser(Seq<char>),
    LocalCustomEmoji(Seq<char>),
    HashTag(Seq<char>),
    Small(Box<NodeView>),
    Center(Box<NodeView>),
    PlainTag(Seq<char>),
    Quote(int, Box<NodeView>),
    Plain(Seq<char>),
}

pub open spec fn node_view_list(cs: Seq<Node>) -> Seq<NodeView>
    decreases cs,
{
    if cs.len() == 0 {
        Seq::empty()
    } else {
        seq![node_view(cs[0])] + node_view_list(cs.drop_first())
    }
}

pub open spec fn node_view(n: Node) -> NodeView
    decreases n,
{
    match n {
        Node::Empty => NodeView::Empty,
        Node::Span(cs) => NodeView::Span(node_view_list(cs@)),
        Node::GlobalUser(name, host) => NodeView::GlobalUser(name@, host.deep_view()),
        Node::LocalUser(name) => NodeView::LocalUser(name@),
        Node::LocalCustomEmoji(name) => NodeView::LocalCustomEmoji(name@),
        Node::HashTag(text) => NodeView::HashTag(text@),
        Node::Small(c) => NodeView::Small(Box::new(node_view(*c))),
        Node::Center(c) => NodeView::Center(Box::new(node_view(*c))),
        Node::PlainTag(text) => NodeView::PlainTag(text@),
        Node::Quote(depth, c) => NodeView::Quote(depth as int, Box::new(node_view(*c))),
        Node::Plain(text) => NodeView::Plain(text@),
    }
}

impl View for Node {
    type V = NodeView;

    open spec fn view(&self) -> NodeView {
        node_view(*self)
    }
}

/// First normalization pass on a list of children: flatten each child
/// and splice the children of a child that flattened to a `Span`
/// directly into the parent's list.
pub open spec fn flatten_list_spec(cs: Seq<RawNodeView>) -> Seq<RawNodeView>
    decreases cs,
{
    if cs.len() == 0 {
        Seq::empty()
    } else {
        let head = flatten_spec(cs[0]);
        let rest = flatten_list_spec(cs.drop_first());
        (match head {
            RawNodeView::Span(gs) => gs,
            _ => seq![head],
        }) + rest
    }
}

/// First normalization pass: no `Span` remains directly inside a
/// `Span`, and a `Span` left with exactly one child collapses to it.
pub open spec fn flatten_spec(n: RawNodeView) -> RawNodeView
    decreases n,
{
    match n {
        RawNodeView::Span(cs) => {
            let r = flatten_list_spec(cs);
            if r.len() == 1 {
                r[0]
            } else {
                RawNodeView::Span(r)
            }
        },
        RawNodeView::Small(c) => RawNodeView::Small(Box::new(flatten_spec(*c))),
        RawNodeView::Center(c) => RawNodeView::Center(Box::new(flatten_spec(*c))),
        RawNodeView::Quote(depth, c) => RawNodeView::Quote(depth, Box::new(flatten_spec(*c))),
        _ => n,
    }
}

/// Second normalization pass on a list of children: lower each child
/// to its owned form, merging each run of adjacent `Char` leaves into
/// one `Plain` text run.
pub open spec fn lower_list_spec(cs: Seq<RawNodeView>) -> Seq<NodeView>
    decreases cs,
{
    if cs.len() == 0 {
        Seq::empty()
    } else {
        let r = lower_list_spec(cs.drop_last());
        match cs.last() {
            RawNodeView::Char(c) => {
                if r.len() > 0 && r.last() is Plain {
                    r.update(r.len() - 1, NodeView::Plain(r.last()->Plain_0.push(c)))
                } else {
                    r.push(NodeView::Plain(seq![c]))
                }
            },
            other => r.push(lower_spec(other)),
        }
    }
}

/// Second normalization pass: a `Span` with no children becomes
/// `Empty`, one with a single child collapses to it, and `Char` runs
/// become `Plain` text.
pub open spec fn lower_spec(n: RawNodeView) -> NodeView
    decreases n,
{
    match n {
        RawNodeView::Span(cs) => {
            let r = lower_list_spec(cs);
            if r.len() == 0 {
                NodeView::Empty
            } else if r.len() == 1 {
                r[0]
            } else {
                NodeView::Span(r)
            }
        },
        RawNodeView::GlobalUser(name, host) => NodeView::GlobalUser(name, host),
        RawNodeView::LocalUser(name) => NodeView::LocalUser(name),
        RawNodeView::LocalCustomEmoji(name) => NodeView::LocalCustomEmoji(name),
        RawNodeView::HashTag(text) => NodeView::HashTag(text),
        RawNodeView::Small(c) => NodeView::Small(Box::new(lower_spec(*c))),
        RawNodeView::Center(c) => NodeView::Center(Box::new(lower_spec(*c))),
        RawNodeView::PlainTag(text) => NodeView::PlainTag(text),
        RawNodeView::Quote(depth, c) => NodeView::Quote(depth, Box::new(lower_spec(*c))),
        RawNodeView::Char(c) => NodeView::Plain(seq![c]),
    }
}

/// Both normalization passes: what [`crate::parser::parse_mfm`]
/// exposes of a raw parse tree.
pub open spec fn normalize_spec(n: RawNodeView) -> NodeView {
    lower_spec(flatten_spec(n))
}

pub open spec fn into_global_list_spec(cs: Seq<NodeView>, host: Seq<Seq<char>>) -> Seq<NodeView>
    decreases cs,
{
    if cs.len() == 0 {
        Seq::empty()
    } else {
        seq![into_global_spec(cs[0], host)] + into_global_list_spec(cs.drop_first(), host)
    }
}

/// The global-mention rewrite: every `LocalUser` becomes a
/// `GlobalUser` on the given host; everything else is kept, with the
/// rewrite applied below each wrapper.
pub open spec fn into_global_spec(n: NodeView, host: Seq<Seq<char>>) -> NodeView
    decreases n,
{
    match n {
        NodeView::Span(cs) => NodeView::Span(into_global_list_spec(cs, host)),
        NodeView::LocalUser(name) => NodeView::GlobalUser(name, host),
        NodeView::Small(c) => NodeView::Small(Box::new(into_global_spec(*c, host))),
        NodeView::Center(c) => NodeView::Center(Box::new(into_global_spec(*c, host))),
        NodeView::Quote(depth, c) => NodeView::Quote(depth, Box::new(into_global_spec(*c, host))),
        _ => n,
    }
}

/// The shape every normalized tree has: a `Span` holds at least two
/// children and never holds another `Span` directly, and a `Plain`
/// text run is never empty.
pub open spec fn well_formed(n: NodeView) -> bool
    decreases n,
{
    match n {
        NodeView::Span(cs) => cs.len() >= 2 && forall|k: int|
            0 <= k < cs.len() ==> !((#[trigger] cs[k]) is Span) && well_formed(cs[k]),
        NodeView::Small(c) => well_formed(*c),
        NodeView::Center(c) => well_formed(*c),
        NodeView::Quote(_, c) => well_formed(*c),
        NodeView::Plain(text) => text.len() >= 1,
        _ => true,
    }
}

/// The view of a list of raw nodes is the list of their views.
pub proof fn lemma_raw_view_list(v: Seq<RawNode>)
    ensures
        raw_view_list(v).len() == v.len(),
        forall|k: int| 0 <= k < v.len() ==> raw_view_list(v)[k] == raw_node_view(#[trigger] v[k]),
    decreases v,
{
    if v.len() > 0 {
        lemma_raw_view_list(v.drop_first());
        assert forall|k: int|
            0 <= k < v.len() implies raw_view_list(v)[k] == raw_node_view(v[k]) by {
            if k > 0 {
                assert(v.drop_first()[k - 1] == v[k]);
            }
        }
    }
}

/// The view of a list of normalized nodes is the list of their views.
pub proof fn lemma_node_view_list(v: Seq<Node>)
    ensures
        node_view_list(v).len() == v.len(),
        forall|k: int| 0 <= k < v.len() ==> node_view_list(v)[k] == node_view(#[trigger] v[k]),
    decreases v,
{
    if v.len() > 0 {
        lemma_node_view_list(v.drop_first());
        assert forall|k: int|
            0 <= k < v.len() implies node_view_list(v)[k] == node_view(v[k]) by {
            if k > 0 {
                assert(v.drop_first()[k - 1] == v[k]);
            }
        }
    }
}

/// Viewing a concatenation of raw-node lists concatenates the views.
pub(crate) proof fn lemma_rvl_concat(a: Seq<RawNode>, b: Seq<RawNode>)
    ensures
        raw_view_list(a + b) == raw_view_list(a) + raw_view_list(b),
{
    lemma_raw_view_list(a);
    lemma_raw_view_list(b);
    lemma_raw_view_list(a + b);
    assert forall|k: int|
        0 <= k < (a + b).len() implies raw_view_list(a + b)[k] == (raw_view_list(a)
        + raw_view_list(b))[k] by {
        if k < a.len() {
            assert((a + b)[k] == a[k]);
        } else {
            assert((a + b)[k] == b[k - a.len()]);
        }
    }
    assert(raw_view_list(a + b) =~= raw_view_list(a) + raw_view_list(b));
}

/// Viewing a raw-node list with one more node pushes that node's view.
pub(crate) proof fn lemma_rvl_push(a: Seq<RawNode>, x: RawNode)
    ensures
        raw_view_list(a.push(x)) == raw_view_list(a).push(raw_node_view(x)),
{
    assert(a.push(x) =~= a + seq![x]);
    lemma_rvl_concat(a, seq![x]);
    lemma_raw_view_list(seq![x]);
    assert(raw_view_list(seq![x]) =~= seq![raw_node_view(x)]);
    assert(raw_view_list(a).push(raw_node_view(x)) =~= raw_view_list(a) + seq![
        raw_node_view(x),
    ]);
}

/// One step of [`flatten_list_spec`] over a suffix of a child list.
proof fn lemma_flatten_list_unfold(vs: Seq<RawNodeView>, i: int)
    requires
        0 <= i < vs.len(),
    ensures
        flatten_list_spec(vs.subrange(i, vs.len() as int)) == (match flatten_spec(vs[i]) {
            RawNodeView::Span(gs) => gs,
            h => seq![h],
        }) + flatten_list_spec(vs.subrange(i + 1, vs.len() as int)),
{
    let sub = vs.subrange(i, vs.len() as int);
    assert(sub[0] == vs[i]);
    assert(sub.drop_first() =~= vs.subrange(i + 1, vs.len() as int));
}

impl RawNode {
    /// First normalization pass over the owned tree; see
    /// [`flatten_spec`].
    #[verifier::loop_isolation(false)]
    pub fn flatten(self) -> (r: Self)
        ensures
            r@ == flatten_spec(self@),
        decreases self,
    {
        let ghost orig = self;
        match self {
            RawNode::Span(children) => {
                let ghost cs = children@;
                let ghost vs = raw_view_list(cs);
                proof {
                    lemma_raw_view_list(cs);
                    assert(orig is Span);
                    assert(orig->Span_0@ == cs);
                    assert(vs.subrange(0, vs.len() as int) =~= vs);
                    assert(raw_view_list(Seq::<RawNode>::empty())
                        == Seq::<RawNodeView>::empty());
                    assert(Seq::<RawNodeView>::empty() + flatten_list_spec(vs)
                        =~= flatten_list_spec(vs));
                }
                let mut children = children;
                let mut result: Vec<RawNode> = Vec::new();
                while children.len() > 0
                    invariant
                        cs.len() == vs.len(),
                        children@.len() <= cs.len(),
                        children@ == cs.subrange(
                            cs.len() - children@.len(),
                            cs.len() as int,
                        ),
                        raw_view_list(result@) + flatten_list_spec(
                            vs.subrange(cs.len() - children@.len(), cs.len() as int),
                        ) == flatten_list_spec(vs),
                    decreases children@.len(),
                {
                    let ghost i = cs.len() - children@.len();
                    let ghost result_pre = result@;
                    let child = children.remove(0);
                    proof {
                        assert(child == cs[i]);
                        assert(children@ =~= cs.subrange(
                            cs.len() - children@.len(),
                            cs.len() as int,
                        ));
                        assert(raw_view_list(cs.subrange(i, i + 1)).len() == 1) by {
                            lemma_raw_view_list(cs.subrange(i, i + 1));
                        }
                        assert(decreases_to!(orig => child)) by {
                            let ovec = orig->Span_0;
                            assert(decreases_to!(orig => ovec));
                            assert(decreases_to!(ovec => ovec@));
                            assert(decreases_to!(cs => cs[i]));
                        }
                        lemma_flatten_list_unfold(vs, i);
                        assert(vs[i] == child@);
                    }
                    let fc = child.flatten();
                    match fc {
                        RawNode::Span(gs) => {
                            let mut gs = gs;
                            let ghost gsv = gs@;
                            result.append(&mut gs);
                            proof {
                                lemma_rvl_concat(result_pre, gsv);
                                assert(flatten_spec(vs[i]) == RawNodeView::Span(
                                    raw_view_list(gsv),
                                ));
                                assert(raw_view_list(result@) + flatten_list_spec(
                                    vs.subrange(i + 1, vs.len() as int),
                                ) =~= flatten_list_spec(vs));
                            }
                        },
                        leaf => {
                            proof {
                                assert(flatten_spec(vs[i]) == leaf@);
                                assert(!(leaf@ is Span));
                                lemma_rvl_push(result_pre, leaf);
                            }
                            result.push(leaf);
                            proof {
                                assert(raw_view_list(result@) + flatten_list_spec(
                                    vs.subrange(i + 1, vs.len() as int),
                                ) =~= flatten_list_spec(vs));
                            }
                        },
                    }
                }
                proof {
                    assert(vs.subrange(cs.len() as int, cs.len() as int)
                        =~= Seq::<RawNodeView>::empty());
                    assert(flatten_list_spec(Seq::<RawNodeView>::empty())
                        == Seq::<RawNodeView>::empty());
                    assert(raw_view_list(result@) == flatten_list_spec(vs));
                    lemma_raw_view_list(result@);
                }
                if result.len() == 1 {
                    match result.pop() {
                        Some(only) => only,
                        None => vstd::pervasive::unreached(),
                    }
                } else {
                    RawNode::Span(result)
                }
            },
            RawNode::Small(c) => RawNode::Small(Box::new((*c).flatten())),
            RawNode::Center(c) => RawNode::Center(Box::new((*c).flatten())),
            RawNode::Quote(depth, c) => RawNode::Quote(depth, Box::new((*c).flatten())),
            other => other,
        }
    }
}

/// Viewing a concatenation of node lists concatenates the views.
proof fn lemma_nvl_concat(a: Seq<Node>, b: Seq<Node>)
    ensures
        node_view_list(a + b) == node_view_list(a) + node_view_list(b),
{
    lemma_node_view_list(a);
    lemma_node_view_list(b);
    lemma_node_view_list(a + b);
    assert forall|k: int|
        0 <= k < (a + b).len() implies node_view_list(a + b)[k] == (node_view_list(a)
        + node_view_list(b))[k] by {
        if k < a.len() {
            assert((a + b)[k] == a[k]);
        } else {
            assert((a + b)[k] == b[k - a.len()]);
        }
    }
    assert(node_view_list(a + b) =~= node_view_list(a) + node_view_list(b));
}

/// Viewing a node list with one more node pushes that node's view.
proof fn lemma_nvl_push(a: Seq<Node>, x: Node)
    ensures
        node_view_list(a.push(x)) == node_view_list(a).push(node_view(x)),
{
    assert(a.push(x) =~= a + seq![x]);
    lemma_nvl_concat(a, seq![x]);
    lemma_node_view_list(seq![x]);
    assert(node_view_list(seq![x]) =~= seq![node_view(x)]);
    assert(node_view_list(a).push(node_view(x)) =~= node_view_list(a) + seq![node_view(x)]);
}

/// One step of [`lower_list_spec`] over a prefix of a child list.
proof fn lemma_lower_list_unfold(vs: Seq<RawNodeView>, i: int)
    requires
        0 <= i < vs.len(),
    ensures
        lower_list_spec(vs.subrange(0, i + 1)) == ({
            let r = lower_list_spec(vs.subrange(0, i));
            match vs[i] {
                RawNodeView::Char(c) => {
                    if r.len() > 0 && r.last() is Plain {
                        r.update(r.len() - 1, NodeView::Plain(r.last()->Plain_0.push(c)))
                    } else {
                        r.push(NodeView::Plain(seq![c]))
                    }
                },
                other => r.push(lower_spec(other)),
            }
        }),
{
    let sub = vs.subrange(0, i + 1);
    assert(sub.drop_last() =~= vs.subrange(0, i));
    assert(sub.last() == vs[i]);
}

impl RawNode {
    /// Second normalization pass over the owned tree; see
    /// [`lower_spec`].
    #[verifier::loop_isolation(false)]
    pub fn into_node(self) -> (r: Node)
        ensures
            r@ == lower_spec(self@),
        decreases self,
    {
        let ghost orig = self;
        match self {
            RawNode::Span(children) => {
                let ghost cs = children@;
                let ghost vs = raw_view_list(cs);
                proof {
                    lemma_raw_view_list(cs);
                    assert(orig is Span);
                    assert(orig->Span_0@ == cs);
                    assert(vs.subrange(0, 0) =~= Seq::<RawNodeView>::empty());
                    assert(lower_list_spec(Seq::<RawNodeView>::empty())
                        == Seq::<NodeView>::empty());
                }
                let mut children = children;
                let mut result: Vec<Node> = Vec::new();
                while children.len() > 0
                    invariant
                        children@.len() <= cs.len(),
                        children@ == cs.subrange(
                            cs.len() - children@.len(),
                            cs.len() as int,
                        ),
                        node_view_list(result@) == lower_list_spec(
                            vs.subrange(0, cs.len() - children@.len()),
                        ),
                    decreases children@.len(),
                {
                    let ghost i = cs.len() - children@.len();
                    let ghost result_pre = result@;
                    let child = children.remove(0);
                    proof {
                        assert(child == cs[i]);
                        assert(children@ =~= cs.subrange(
                            cs.len() - children@.len(),
                            cs.len() as int,
                        ));
                        lemma_lower_list_unfold(vs, i);
                        assert(vs[i] == child@);
                        lemma_node_view_list(result_pre);
                    }
                    match child {
                        RawNode::Char(c) => {
                            let merged = if result.len() > 0 {
                                let last = match result.pop() {
                                    Some(last) => last,
                                    None => vstd::pervasive::unreached(),
                                };
                                match last {
                                    Node::Plain(text) => {
                                        let mut text = text;
                                        proof {
                                            assert(node_view(last)
                                                == node_view_list(result_pre).last());
                                        }
                                        push_char(&mut text, c);
                                        result.push(Node::Plain(text));
                                        proof {
                                            lemma_nvl_push(result_pre.drop_last(),
                                                Node::Plain(text));
                                            lemma_node_view_list(result_pre.drop_last());
                                            assert forall|k: int|
                                                0 <= k < result_pre.len() - 1 implies
                                                node_view_list(result_pre.drop_last())[k]
                                                    == node_view_list(
                                                    result_pre,
                                                ).drop_last()[k] by {
                                                assert(result_pre.drop_last()[k]
                                                    == result_pre[k]);
                                            }
                                            assert(node_view_list(result_pre.drop_last())
                                                =~= node_view_list(result_pre).drop_last());
                                            assert(node_view_list(result@)
                                                =~= lower_list_spec(
                                                vs.subrange(0, i + 1)));
                                        }
                                        true
                                    },
                                    other => {
                                        result.push(other);
                                        proof {
                                            lemma_nvl_push(result_pre.drop_last(), other);
                                            assert(result_pre.drop_last().push(other)
                                                =~= result_pre);
                                            assert(!(node_view_list(result_pre).last()
                                                is Plain));
                                        }
                                        false
                                    },
                                }
                            } else {
                                false
                            };
                            if !merged {
                                let ghost result_mid = result@;
                                let piece = Node::Plain(char_string(c));
                                proof {
                                    lemma_nvl_push(result_mid, piece);
                                }
                                result.push(piece);
                                proof {
                                    assert(node_view_list(result@) =~= lower_list_spec(
                                        vs.subrange(0, i + 1)));
                                }
                            }
                        },
                        other => {
                            proof {
                                assert(decreases_to!(orig => other)) by {
                                    let ovec = orig->Span_0;
                                    assert(decreases_to!(orig => ovec));
                                    assert(decreases_to!(ovec => ovec@));
                                    assert(decreases_to!(cs => cs[i]));
                                }
                                assert(!(other@ is Char));
                            }
                            let lowered = other.into_node();
                            proof {
                                lemma_nvl_push(result_pre, lowered);
                            }
                            result.push(lowered);
                            proof {
                                assert(node_view_list(result@) =~= lower_list_spec(
                                    vs.subrange(0, i + 1)));
                            }
                        },
                    }
                }
                proof {
                    assert(vs.subrange(0, cs.len() as int) =~= vs);
                    lemma_node_view_list(result@);
                }
                if result.len() == 0 {
                    Node::Empty
                } else if result.len() == 1 {
                    match result.pop() {
                        Some(only) => only,
                        None => vstd::pervasive::unreached(),
                    }
                } else {
                    Node::Span(result)
                }
            },
            RawNode::GlobalUser(name, host) => Node::GlobalUser(name, host),
            RawNode::LocalUser(name) => Node::LocalUser(name),
            RawNode::LocalCustomEmoji(name) => Node::LocalCustomEmoji(name),
            RawNode::HashTag(text) => Node::HashTag(text),
            RawNode::Small(c) => Node::Small(Box::new((*c).into_node())),
            RawNode::Center(c) => Node::Center(Box::new((*c).into_node())),
            RawNode::PlainTag(text) => Node::PlainTag(text),
            RawNode::Quote(depth, c) => Node::Quote(depth, Box::new((*c).into_node())),
            RawNode::Char(c) => Node::Plain(char_string(c)),
        }
    }
}

/// One step of [`into_global_list_spec`] over a suffix of a child
/// list.
proof fn lemma_into_global_list_unfold(vs: Seq<NodeView>, host: Seq<Seq<char>>, i: int)
    requires
        0 <= i < vs.len(),
    ensures
        into_global_list_spec(vs.subrange(i, vs.len() as int), host) == seq![
            into_global_spec(vs[i], host),
        ] + into_global_list_spec(vs.subrange(i + 1, vs.len() as int), host),
{
    let sub = vs.subrange(i, vs.len() as int);
    assert(sub[0] == vs[i]);
    assert(sub.drop_first() =~= vs.subrange(i + 1, vs.len() as int));
}

impl Node {
    /// The global-mention rewrite; see [`into_global_spec`]. Every
    /// `LocalUser` in the tree becomes a `GlobalUser` on the given
    /// host labels.
    #[verifier::loop_isolation(false)]
    pub fn into_global(self, source_host: Vec<String>) -> (r: Self)
        ensures
            r@ == into_global_spec(self@, source_host.deep_view()),
            no_local_user(r@),
        decreases self,
    {
        proof {
            crate::parser::laws::lemma_into_global_no_local(self@, source_host.deep_view());
        }
        let ghost orig = self;
        let ghost host = source_host.deep_view();
        match self {
            Node::Span(children) => {
                let ghost cs = children@;
                let ghost vs = node_view_list(cs);
                proof {
                    lemma_node_view_list(cs);
                    assert(orig is Span);
                    assert(orig->Span_0@ == cs);
                    assert(vs.subrange(0, vs.len() as int) =~= vs);
                    assert(into_global_list_spec(Seq::<NodeView>::empty(), host)
                        == Seq::<NodeView>::empty());
                    assert(Seq::<NodeView>::empty() + into_global_list_spec(vs, host)
                        =~= into_global_list_spec(vs, host));
                }
                let mut children = children;
                let mut result: Vec<Node> = Vec::new();
                while children.len() > 0
                    invariant
                        children@.len() <= cs.len(),
                        children@ == cs.subrange(
                            cs.len() - children@.len(),
                            cs.len() as int,
                        ),
                        node_view_list(result@) + into_global_list_spec(
                            vs.subrange(cs.len() - children@.len(), cs.len() as int),
                            host,
                        ) == into_global_list_spec(vs, host),
                    decreases children@.len(),
                {
                    let ghost i = cs.len() - children@.len();
                    let ghost result_pre = result@;
                    let child = children.remove(0);
                    proof {
                        assert(child == cs[i]);
                        assert(children@ =~= cs.subrange(
                            cs.len() - children@.len(),
                            cs.len() as int,
                        ));
                        lemma_into_global_list_unfold(vs, host, i);
                        assert(vs[i] == child@);
                        assert(decreases_to!(orig => child)) by {
                            let ovec = orig->Span_0;
                            assert(decreases_to!(orig => ovec));
                            assert(decreases_to!(ovec => ovec@));
                            assert(decreases_to!(cs => cs[i]));
                        }
                    }
                    let rewritten = child.into_global(clone_host(&source_host));
                    proof {
                        lemma_nvl_push(result_pre, rewritten);
                    }
                    result.push(rewritten);
                    proof {
                        assert(node_view_list(result@) + into_global_list_spec(
                            vs.subrange(i + 1, vs.len() as int),
                            host,
                        ) =~= into_global_list_spec(vs, host));
                    }
                }
                proof {
                    assert(vs.subrange(cs.len() as int, cs.len() as int)
                        =~= Seq::<NodeView>::empty());
                    assert(node_view_list(result@) + Seq::<NodeView>::empty()
                        =~= node_view_list(result@));
                }
                Node::Span(result)
            },
            Node::LocalUser(name) => Node::GlobalUser(name, source_host),
            Node::Small(c) => Node::Small(Box::new((*c).into_global(source_host))),
            Node::Center(c) => Node::Center(Box::new((*c).into_global(source_host))),
            Node::Quote(depth, c) => Node::Quote(
                depth,
                Box::new((*c).into_global(source_host)),
            ),
            other => other,
        }
    }
}

impl From<RawNode> for Node {
    /// Normalization: both passes, flatten then lower.
    fn from(raw: RawNode) -> (r: Node)
        ensures
            r@ == normalize_spec(raw@),
    {
        raw.flatten().into_node()
    }
}

impl vstd::std_specs::convert::FromSpecImpl<RawNode> for Node {
    open spec fn obeys_from_spec() -> bool {
        false
    }

    open spec fn from_spec(raw: RawNode) -> Node {
        vstd::pervasive::arbitrary()
    }
}

/// The shape the first normalization pass leaves behind: no `Span`
/// stands directly inside a `Span`.
pub open spec fn flat(n: RawNodeView) -> bool
    decreases n,
{
    match n {
        RawNodeView::Span(cs) => forall|k: int|
            0 <= k < cs.len() ==> !((#[trigger] cs[k]) is Span) && flat(cs[k]),
        RawNodeView::Small(c) => flat(*c),
        RawNodeView::Center(c) => flat(*c),
        RawNodeView::Quote(_, c) => flat(*c),
        _ => true,
    }
}

/// Holds when no `LocalUser` leaf remains anywhere in the tree.
pub open spec fn no_local_user(n: NodeView) -> bool
    decreases n,
{
    match n {
        NodeView::Span(cs) => forall|k: int|
            0 <= k < cs.len() ==> no_local_user(#[trigger] cs[k]),
        NodeView::LocalUser(_) => false,
        NodeView::Small(c) => no_local_user(*c),
        NodeView::Center(c) => no_local_user(*c),
        NodeView::Quote(_, c) => no_local_user(*c),
        _ => true,
    }
}

} // verus!


verus! {
proof fn test_unfold_local(c: char) {
    assert(raw_node_view(RawNode::Char(c)) == RawNodeView::Char(c));
}
} // verus!
