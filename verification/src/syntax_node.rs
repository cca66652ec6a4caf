use vstd::prelude::*;
use vstd::multiset::Multiset;
use rowan::cursor::SyntaxNode as CursorNode;
use rowan::cursor::SyntaxToken as CursorToken;
use crate::syntax_error::{Location, SyntaxError, SyntaxErrorKind};
use crate::syntax_kind::{code_kind, kind_code, SyntaxKind};
use crate::ParseError;
use crate::text_range::TextRange;

verus! {

// ---------------------------------------------------------------------------
// The tree storage engine. The rowan crate allocates and structurally shares
// the immutable trees; this layer declares its types, names what they hold,
// and wraps the calls the library makes. Everything above the wrappers is
// verified against these contracts.
// ---------------------------------------------------------------------------

#[verifier::external_type_specification]
#[verifier::external_body]
pub struct ExGreenNode(rowan::GreenNode);

#[verifier::external_type_specification]
#[verifier::external_body]
pub struct ExGreenNodeBuilder<'a>(rowan::GreenNodeBuilder<'a>);

#[verifier::external_type_specification]
#[verifier::external_body]
pub struct ExCursorSyntaxNode(CursorNode);

#[verifier::external_type_specification]
#[verifier::external_body]
pub struct ExCursorSyntaxToken(CursorToken);

/// The concatenation, in call order, of the texts of all tokens handed to a
/// builder so far.
pub uninterp spec fn builder_text(b: rowan::GreenNodeBuilder<'static>) -> Seq<char>;

/// How many nodes a builder has started and not yet finished.
pub uninterp spec fn builder_depth(b: rowan::GreenNodeBuilder<'static>) -> int;

/// How many elements (nodes or tokens) a builder has completed at the top
/// level, outside every open node.
pub uninterp spec fn builder_roots(b: rowan::GreenNodeBuilder<'static>) -> int;

/// How many of the completed top-level elements are bare tokens. A builder
/// can only be frozen when its single top-level element is a node.
pub uninterp spec fn builder_top_tokens(b: rowan::GreenNodeBuilder<'static>) -> int;

/// The kind tags of a builder's open nodes, outermost first.
pub uninterp spec fn builder_open_kinds(b: rowan::GreenNodeBuilder<'static>) -> Seq<u16>;

/// The kind tag of the most recently completed top-level node; unspecified
/// while none has been completed.
pub uninterp spec fn builder_root_kind(b: rowan::GreenNodeBuilder<'static>) -> u16;

/// The full text of a frozen green tree: the concatenation of its tokens'
/// texts in document order.
pub uninterp spec fn green_text(g: rowan::GreenNode) -> Seq<char>;

/// The kind tag of a frozen green tree's root node.
pub uninterp spec fn green_kind(g: rowan::GreenNode) -> u16;

/// The full text covered by a node view, in document order.
pub uninterp spec fn node_text(n: CursorNode) -> Seq<char>;

/// The texts of a node view's descendant tokens, in document order.
pub uninterp spec fn node_token_texts(n: CursorNode) -> Seq<Seq<char>>;

/// The numeric kind tag of a node view.
pub uninterp spec fn node_kind_code(n: CursorNode) -> u16;

/// The extent a node view covers within the whole document, as byte
/// positions of the stored UTF-8 text.
pub uninterp spec fn node_range(n: CursorNode) -> TextRange;

/// The extent a token view covers within the whole document, as byte
/// positions of the stored UTF-8 text.
pub uninterp spec fn token_range(t: CursorToken) -> TextRange;

/// The parent of a node view, when it has one.
pub uninterp spec fn node_parent(n: CursorNode) -> Option<CursorNode>;

/// The first interior-node child of a node view.
pub uninterp spec fn node_first_child(n: CursorNode) -> Option<CursorNode>;

/// The last interior-node child of a node view.
pub uninterp spec fn node_last_child(n: CursorNode) -> Option<CursorNode>;

/// The next interior-node sibling of a node view.
pub uninterp spec fn node_next_sibling(n: CursorNode) -> Option<CursorNode>;

/// The previous interior-node sibling of a node view.
pub uninterp spec fn node_prev_sibling(n: CursorNode) -> Option<CursorNode>;

/// The interior-node children of a node view, in left-to-right order.
pub uninterp spec fn node_children(n: CursorNode) -> Seq<CursorNode>;

/// The first child of a node view, node or token.
pub uninterp spec fn node_first_elem(n: CursorNode) -> Option<SyntaxElement>;

/// The last child of a node view, node or token.
pub uninterp spec fn node_last_elem(n: CursorNode) -> Option<SyntaxElement>;

/// The next sibling of a node view, node or token.
pub uninterp spec fn node_next_elem(n: CursorNode) -> Option<SyntaxElement>;

/// The previous sibling of a node view, node or token.
pub uninterp spec fn node_prev_elem(n: CursorNode) -> Option<SyntaxElement>;

/// The parent of a token view, when it has one.
pub uninterp spec fn token_parent(t: CursorToken) -> Option<CursorNode>;

/// The token after a token view in document order, anywhere in the tree.
pub uninterp spec fn token_next_token(t: CursorToken) -> Option<CursorToken>;

/// The token before a token view in document order, anywhere in the tree.
pub uninterp spec fn token_prev_token(t: CursorToken) -> Option<CursorToken>;

/// The next sibling of a token view, node or token.
pub uninterp spec fn token_next_elem(t: CursorToken) -> Option<SyntaxElement>;

/// The previous sibling of a token view, node or token.
pub uninterp spec fn token_prev_elem(t: CursorToken) -> Option<SyntaxElement>;

/// The text of a token view.
pub uninterp spec fn token_text(t: CursorToken) -> Seq<char>;

/// The numeric kind tag of a token view.
pub uninterp spec fn token_kind_code(t: CursorToken) -> u16;

/// Relies on rowan::GreenNodeBuilder::new: a fresh builder holds no text,
/// no open node and no completed element.
#[verifier::external_body]
fn rowan_builder_new() -> (b: rowan::GreenNodeBuilder<'static>)
    ensures
        builder_text(b) == Seq::<char>::empty(),
        builder_depth(b) == 0,
        builder_roots(b) == 0,
        builder_top_tokens(b) == 0,
        builder_open_kinds(b) == Seq::<u16>::empty(),
{
    rowan::GreenNodeBuilder::new()
}

/// Relies on rowan::GreenNodeBuilder::start_node: opens one interior node;
/// the accumulated text and the completed top-level elements are untouched.
#[verifier::external_body]
fn rowan_builder_start_node(b: &mut rowan::GreenNodeBuilder<'static>, kind: SyntaxKind)
    ensures
        builder_text(*final(b)) == builder_text(*old(b)),
        builder_depth(*final(b)) == builder_depth(*old(b)) + 1,
        builder_roots(*final(b)) == builder_roots(*old(b)),
        builder_top_tokens(*final(b)) == builder_top_tokens(*old(b)),
        builder_open_kinds(*final(b)) == builder_open_kinds(*old(b)).push(kind_code(kind)),
        builder_root_kind(*final(b)) == builder_root_kind(*old(b)),
{
    b.start_node(rowan::SyntaxKind(kind.code()))
}

/// Relies on rowan::GreenNodeBuilder::token: appends one leaf holding
/// exactly `text`; at the top level the leaf is one more completed element.
/// rowan measures text in 32-bit counts of UTF-8 bytes with unchecked
/// arithmetic, and a character encodes to at most four bytes, so keeping
/// the accumulated character count within a quarter of the 32-bit range
/// keeps every byte count the engine computes within that range.
#[verifier::external_body]
fn rowan_builder_token(b: &mut rowan::GreenNodeBuilder<'static>, kind: SyntaxKind, text: &str)
    requires
        builder_text(*old(b)).len() + text@.len() <= u32::MAX / 4,
    ensures
        builder_text(*final(b)) == builder_text(*old(b)) + text@,
        builder_depth(*final(b)) == builder_depth(*old(b)),
        builder_depth(*old(b)) == 0 ==> builder_roots(*final(b)) == builder_roots(*old(b)) + 1
            && builder_top_tokens(*final(b)) == builder_top_tokens(*old(b)) + 1,
        builder_depth(*old(b)) != 0 ==> builder_roots(*final(b)) == builder_roots(*old(b))
            && builder_top_tokens(*final(b)) == builder_top_tokens(*old(b)),
        builder_open_kinds(*final(b)) == builder_open_kinds(*old(b)),
        builder_root_kind(*final(b)) == builder_root_kind(*old(b)),
{
    b.token(rowan::SyntaxKind(kind.code()), text)
}

/// Relies on rowan::GreenNodeBuilder::finish_node: closes the innermost
/// open node (there must be one); closing the outermost open node completes
/// one more top-level element, and that element is a node of the kind the
/// matching start opened. Closing a node sums its children's text sizes in
/// unchecked 32-bit byte counts, so the accumulated text must be small
/// enough that its byte count, at most four per character, fits.
#[verifier::external_body]
fn rowan_builder_finish_node(b: &mut rowan::GreenNodeBuilder<'static>)
    requires
        builder_depth(*old(b)) >= 1,
        builder_text(*old(b)).len() <= u32::MAX / 4,
    ensures
        builder_text(*final(b)) == builder_text(*old(b)),
        builder_depth(*final(b)) == builder_depth(*old(b)) - 1,
        builder_top_tokens(*final(b)) == builder_top_tokens(*old(b)),
        builder_open_kinds(*final(b)) == builder_open_kinds(*old(b)).drop_last(),
        builder_depth(*old(b)) == 1 ==> builder_roots(*final(b)) == builder_roots(*old(b)) + 1
            && builder_root_kind(*final(b)) == builder_open_kinds(*old(b)).last(),
        builder_depth(*old(b)) != 1 ==> builder_roots(*final(b)) == builder_roots(*old(b))
            && builder_root_kind(*final(b)) == builder_root_kind(*old(b)),
{
    b.finish_node()
}

/// Relies on rowan::GreenNodeBuilder::finish: freezing a balanced builder
/// whose single top-level element is a node yields an immutable green tree
/// carrying exactly the accumulated text, rooted at that node.
#[verifier::external_body]
fn rowan_builder_finish(b: rowan::GreenNodeBuilder<'static>) -> (g: rowan::GreenNode)
    requires
        builder_depth(b) == 0,
        builder_roots(b) == 1,
        builder_top_tokens(b) == 0,
    ensures
        green_text(g) == builder_text(b),
        green_kind(g) == builder_root_kind(b),
{
    b.finish()
}

/// Relies on CursorNode::new_root: the root view of a green
/// tree covers exactly that tree's text and carries its root kind.
#[verifier::external_body]
fn rowan_new_root(g: rowan::GreenNode) -> (n: CursorNode)
    ensures
        node_text(n) == green_text(g),
        node_kind_code(n) == green_kind(g),
{
    CursorNode::new_root(g)
}

/// Relies on CursorNode::kind: the node's numeric kind tag.
#[verifier::external_body]
fn rowan_node_kind(n: &CursorNode) -> (r: u16)
    ensures
        r == node_kind_code(*n),
{
    n.kind().0
}

/// Relies on CursorNode::text_range: where the node stands in the
/// document, as byte positions; a range never runs backwards, and its
/// width is the UTF-8 byte length of the node's text — at least one and
/// at most four bytes per character.
#[verifier::external_body]
fn rowan_node_range(n: &CursorNode) -> (r: TextRange)
    ensures
        r == node_range(*n),
        r.start <= r.end,
        node_text(*n).len() <= r.end - r.start <= 4 * node_text(*n).len(),
{
    let range = n.text_range();
    TextRange { start: range.start().into(), end: range.end().into() }
}

/// Relies on CursorToken::text_range: where the token stands in the
/// document, as byte positions; a range never runs backwards, and its
/// width is the UTF-8 byte length of the token's text — at least one and
/// at most four bytes per character.
#[verifier::external_body]
fn rowan_token_range(t: &CursorToken) -> (r: TextRange)
    ensures
        r == token_range(*t),
        r.start <= r.end,
        token_text(*t).len() <= r.end - r.start <= 4 * token_text(*t).len(),
{
    let range = t.text_range();
    TextRange { start: range.start().into(), end: range.end().into() }
}

/// Relies on CursorToken::kind: the token's numeric kind tag.
#[verifier::external_body]
fn rowan_token_kind(t: &CursorToken) -> (r: u16)
    ensures
        r == token_kind_code(*t),
{
    t.kind().0
}

/// Relies on CursorToken::text: the token's text.
#[verifier::external_body]
fn rowan_token_text(t: &CursorToken) -> (r: String)
    ensures
        r@ == token_text(*t),
{
    t.text().to_string()
}

/// Relies on CursorNode::clone: the clone is a view of the
/// same node.
#[verifier::external_body]
fn rowan_node_clone(n: &CursorNode) -> (r: CursorNode)
    ensures
        r == *n,
{
    n.clone()
}

/// Relies on CursorToken::clone: the clone is a view of the
/// same token.
#[verifier::external_body]
fn rowan_token_clone(t: &CursorToken) -> (r: CursorToken)
    ensures
        r == *t,
{
    t.clone()
}

/// Relies on CursorNode::parent.
#[verifier::external_body]
fn rowan_node_parent(n: &CursorNode) -> (r: Option<CursorNode>)
    ensures
        r == node_parent(*n),
{
    n.parent()
}

/// Relies on CursorNode::first_child.
#[verifier::external_body]
fn rowan_node_first_child(n: &CursorNode) -> (r: Option<CursorNode>)
    ensures
        r == node_first_child(*n),
{
    n.first_child()
}

/// Relies on CursorNode::last_child.
#[verifier::external_body]
fn rowan_node_last_child(n: &CursorNode) -> (r: Option<CursorNode>)
    ensures
        r == node_last_child(*n),
{
    n.last_child()
}

/// Relies on CursorNode::next_sibling.
#[verifier::external_body]
fn rowan_node_next_sibling(n: &CursorNode) -> (r: Option<CursorNode>)
    ensures
        r == node_next_sibling(*n),
{
    n.next_sibling()
}

/// Relies on CursorNode::prev_sibling.
#[verifier::external_body]
fn rowan_node_prev_sibling(n: &CursorNode) -> (r: Option<CursorNode>)
    ensures
        r == node_prev_sibling(*n),
{
    n.prev_sibling()
}

/// Relies on CursorNode::first_child_or_token.
#[verifier::external_body]
fn rowan_node_first_child_or_token(n: &CursorNode) -> (r: Option<SyntaxElement>)
    ensures
        r == node_first_elem(*n),
{
    n.first_child_or_token().map(element_from)
}

/// Relies on CursorNode::last_child_or_token.
#[verifier::external_body]
fn rowan_node_last_child_or_token(n: &CursorNode) -> (r: Option<SyntaxElement>)
    ensures
        r == node_last_elem(*n),
{
    n.last_child_or_token().map(element_from)
}

/// Relies on CursorNode::next_sibling_or_token.
#[verifier::external_body]
fn rowan_node_next_sibling_or_token(n: &CursorNode) -> (r: Option<SyntaxElement>)
    ensures
        r == node_next_elem(*n),
{
    n.next_sibling_or_token().map(element_from)
}

/// Relies on CursorNode::prev_sibling_or_token.
#[verifier::external_body]
fn rowan_node_prev_sibling_or_token(n: &CursorNode) -> (r: Option<SyntaxElement>)
    ensures
        r == node_prev_elem(*n),
{
    n.prev_sibling_or_token().map(element_from)
}

/// Relies on CursorToken::next_sibling_or_token.
#[verifier::external_body]
fn rowan_token_next_sibling_or_token(t: &CursorToken) -> (r: Option<SyntaxElement>)
    ensures
        r == token_next_elem(*t),
{
    t.next_sibling_or_token().map(element_from)
}

/// Relies on CursorToken::prev_sibling_or_token.
#[verifier::external_body]
fn rowan_token_prev_sibling_or_token(t: &CursorToken) -> (r: Option<SyntaxElement>)
    ensures
        r == token_prev_elem(*t),
{
    t.prev_sibling_or_token().map(element_from)
}

#[verifier::external_type_specification]
#[verifier::external_body]
#[verifier::reject_recursive_types(N)]
#[verifier::reject_recursive_types(T)]
pub struct ExNodeOrToken<N, T>(rowan::NodeOrToken<N, T>);

/// Relies on rowan::NodeOrToken being a plain two-variant sum: moves each
/// side into the library's own element type.
#[verifier::external_body]
fn element_from(el: rowan::NodeOrToken<CursorNode, CursorToken>) -> SyntaxElement {
    match el {
        rowan::NodeOrToken::Node(x) => SyntaxElement::Node(SyntaxNode { inner: x }),
        rowan::NodeOrToken::Token(x) => SyntaxElement::Token(SyntaxToken { inner: x }),
    }
}

/// Relies on CursorToken::parent.
#[verifier::external_body]
fn rowan_token_parent(t: &CursorToken) -> (r: Option<CursorNode>)
    ensures
        r == token_parent(*t),
{
    t.parent()
}

/// Relies on CursorNode::ancestors: this node, then its parent chain
/// step by step up to the root, which has no parent.
#[verifier::external_body]
fn rowan_node_ancestors(n: &CursorNode) -> (r: Vec<SyntaxNode>)
    ensures
        r@.len() >= 1,
        r@[0].inner == *n,
        forall|i: int|
            0 <= i < r@.len() - 1 ==> node_parent((#[trigger] r@[i]).inner) == Some(
                r@[i + 1].inner,
            ),
        node_parent(r@[r@.len() - 1].inner) is None,
{
    n.ancestors().map(|a| SyntaxNode { inner: a }).collect()
}

/// Relies on CursorNode::first_token: the first descendant token in
/// document order — the one whose text opens the node's token-text list —
/// or nothing when the subtree holds no token.
#[verifier::external_body]
fn rowan_node_first_token(n: &CursorNode) -> (r: Option<SyntaxToken>)
    ensures
        r is Some <==> node_token_texts(*n).len() > 0,
        r is Some ==> r->0.text_spec() == node_token_texts(*n)[0],
{
    n.first_token().map(|t| SyntaxToken { inner: t })
}

/// Relies on CursorNode::last_token: the last descendant token in
/// document order — the one whose text closes the node's token-text list —
/// or nothing when the subtree holds no token.
#[verifier::external_body]
fn rowan_node_last_token(n: &CursorNode) -> (r: Option<SyntaxToken>)
    ensures
        r is Some <==> node_token_texts(*n).len() > 0,
        r is Some ==> r->0.text_spec() == node_token_texts(*n)[node_token_texts(*n).len() - 1],
{
    n.last_token().map(|t| SyntaxToken { inner: t })
}

/// Relies on CursorNode::siblings: this node, then its sibling chain step
/// by step in the given direction, to the end of the chain.
#[verifier::external_body]
fn rowan_node_siblings(n: &CursorNode, direction: Direction) -> (r: Vec<SyntaxNode>)
    ensures
        r@.len() >= 1,
        r@[0].inner == *n,
        direction == Direction::Next ==> (forall|i: int|
            0 <= i < r@.len() - 1 ==> node_next_sibling((#[trigger] r@[i]).inner) == Some(
                r@[i + 1].inner,
            )) && node_next_sibling(r@[r@.len() - 1].inner) is None,
        direction == Direction::Prev ==> (forall|i: int|
            0 <= i < r@.len() - 1 ==> node_prev_sibling((#[trigger] r@[i]).inner) == Some(
                r@[i + 1].inner,
            )) && node_prev_sibling(r@[r@.len() - 1].inner) is None,
{
    let d = match direction {
        Direction::Next => rowan::Direction::Next,
        Direction::Prev => rowan::Direction::Prev,
    };
    n.siblings(d).map(|s| SyntaxNode { inner: s }).collect()
}

/// Relies on CursorNode::siblings_with_tokens: this node as an element,
/// then the element sibling chain step by step in the given direction, to
/// the end of the chain.
#[verifier::external_body]
fn rowan_node_siblings_with_tokens(n: &CursorNode, direction: Direction) -> (r: Vec<SyntaxElement>)
    ensures
        r@.len() >= 1,
        r@[0] == (SyntaxElement::Node(SyntaxNode { inner: *n })),
        direction == Direction::Next ==> (forall|i: int|
            0 <= i < r@.len() - 1 ==> (#[trigger] r@[i]).next_sibling_or_token_spec() == Some(
                r@[i + 1],
            )) && r@[r@.len() - 1].next_sibling_or_token_spec() is None,
        direction == Direction::Prev ==> (forall|i: int|
            0 <= i < r@.len() - 1 ==> (#[trigger] r@[i]).prev_sibling_or_token_spec() == Some(
                r@[i + 1],
            )) && r@[r@.len() - 1].prev_sibling_or_token_spec() is None,
{
    let d = match direction {
        Direction::Next => rowan::Direction::Next,
        Direction::Prev => rowan::Direction::Prev,
    };
    n.siblings_with_tokens(d).map(
        |el| match el {
            rowan::NodeOrToken::Node(x) => SyntaxElement::Node(SyntaxNode { inner: x }),
            rowan::NodeOrToken::Token(x) => SyntaxElement::Token(SyntaxToken { inner: x }),
        },
    ).collect()
}

/// Relies on CursorToken::siblings_with_tokens: this token as an element,
/// then the element sibling chain step by step in the given direction, to
/// the end of the chain.
#[verifier::external_body]
fn rowan_token_siblings_with_tokens(t: &CursorToken, direction: Direction) -> (r: Vec<
    SyntaxElement,
>)
    ensures
        r@.len() >= 1,
        r@[0] == (SyntaxElement::Token(SyntaxToken { inner: *t })),
        direction == Direction::Next ==> (forall|i: int|
            0 <= i < r@.len() - 1 ==> (#[trigger] r@[i]).next_sibling_or_token_spec() == Some(
                r@[i + 1],
            )) && r@[r@.len() - 1].next_sibling_or_token_spec() is None,
        direction == Direction::Prev ==> (forall|i: int|
            0 <= i < r@.len() - 1 ==> (#[trigger] r@[i]).prev_sibling_or_token_spec() == Some(
                r@[i + 1],
            )) && r@[r@.len() - 1].prev_sibling_or_token_spec() is None,
{
    let d = match direction {
        Direction::Next => rowan::Direction::Next,
        Direction::Prev => rowan::Direction::Prev,
    };
    t.siblings_with_tokens(d).map(
        |el| match el {
            rowan::NodeOrToken::Node(x) => SyntaxElement::Node(SyntaxNode { inner: x }),
            rowan::NodeOrToken::Token(x) => SyntaxElement::Token(SyntaxToken { inner: x }),
        },
    ).collect()
}

/// Relies on CursorNode::preorder: the enter/leave events of a depth-first
/// walk over the nodes of this subtree. The walk enters this node first,
/// leaves it last, nests properly, returns to depth zero at the end, and
/// enters and leaves each node at most once — a view value names one
/// position of one tree, so no node repeats.
#[verifier::external_body]
fn rowan_node_preorder(n: &CursorNode) -> (r: Vec<WalkEvent<SyntaxNode>>)
    ensures
        r@.len() >= 2,
        r@[0] == (WalkEvent::Enter(SyntaxNode { inner: *n })),
        r@[r@.len() - 1] == (WalkEvent::Leave(SyntaxNode { inner: *n })),
        walk_depth(r@) == 0,
        forall|k: int| 0 < k < r@.len() ==> walk_depth(#[trigger] r@.take(k)) >= 1,
        forall|x: SyntaxNode|
            #[trigger] enter_count(r@, x) <= 1 && enter_count(r@, x) == leave_count(r@, x),
{
    n.preorder().map(
        |ev| match ev {
            rowan::WalkEvent::Enter(x) => WalkEvent::Enter(SyntaxNode { inner: x }),
            rowan::WalkEvent::Leave(x) => WalkEvent::Leave(SyntaxNode { inner: x }),
        },
    ).collect()
}

/// Relies on CursorNode::preorder_with_tokens: the enter/leave events of a
/// depth-first walk over the nodes and tokens of this subtree. The walk
/// enters this node first, leaves it last, nests properly, returns to
/// depth zero, and enters each descendant token exactly once, in document
/// order, so the entered tokens' texts spell out the node's own text.
#[verifier::external_body]
fn rowan_node_preorder_with_tokens(n: &CursorNode) -> (r: Vec<WalkEvent<SyntaxElement>>)
    ensures
        r@.len() >= 2,
        r@[0] == (WalkEvent::Enter(SyntaxElement::Node(SyntaxNode { inner: *n }))),
        r@[r@.len() - 1] == (WalkEvent::Leave(SyntaxElement::Node(SyntaxNode { inner: *n }))),
        walk_depth(r@) == 0,
        forall|k: int| 0 < k < r@.len() ==> walk_depth(#[trigger] r@.take(k)) >= 1,
        texts_concat(walk_token_texts(r@)) == node_text(*n),
        forall|x: SyntaxElement|
            #[trigger] enter_count(r@, x) <= 1 && enter_count(r@, x) == leave_count(r@, x),
{
    let conv = |el: rowan::NodeOrToken<CursorNode, CursorToken>| match el {
        rowan::NodeOrToken::Node(x) => SyntaxElement::Node(SyntaxNode { inner: x }),
        rowan::NodeOrToken::Token(x) => SyntaxElement::Token(SyntaxToken { inner: x }),
    };
    n.preorder_with_tokens().map(
        |ev| match ev {
            rowan::WalkEvent::Enter(x) => WalkEvent::Enter(conv(x)),
            rowan::WalkEvent::Leave(x) => WalkEvent::Leave(conv(x)),
        },
    ).collect()
}

/// Relies on CursorToken::next_token.
#[verifier::external_body]
fn rowan_token_next_token(t: &CursorToken) -> (r: Option<SyntaxToken>)
    ensures
        (match token_next_token(*t) {
            Some(x) => r is Some && r->0.inner == x,
            None => r is None,
        }),
{
    t.next_token().map(|x| SyntaxToken { inner: x })
}

/// Relies on CursorToken::prev_token.
#[verifier::external_body]
fn rowan_token_prev_token(t: &CursorToken) -> (r: Option<SyntaxToken>)
    ensures
        (match token_prev_token(*t) {
            Some(x) => r is Some && r->0.inner == x,
            None => r is None,
        }),
{
    t.prev_token().map(|x| SyntaxToken { inner: x })
}

/// Relies on CursorNode::children: the node's interior-node
/// children, in left-to-right order.
#[verifier::external_body]
fn rowan_node_children(n: &CursorNode) -> (r: Vec<SyntaxNode>)
    ensures
        r@.map_values(|c: SyntaxNode| c.inner) == node_children(*n),
{
    n.children().map(|c| SyntaxNode { inner: c }).collect()
}

/// Relies on CursorNode::children_with_tokens: all children,
/// nodes and tokens alike, in left-to-right order; their texts concatenate,
/// in that order, to the node's own text, and their stored byte ranges
/// partition the node's own range: contiguous, in order, the first opening
/// and the last closing it, and an empty child list means an empty range.
#[verifier::external_body]
fn rowan_node_children_with_tokens(n: &CursorNode) -> (r: Vec<SyntaxElement>)
    ensures
        elements_text(r@) == node_text(*n),
        forall|i: int| 0 <= i < r@.len() ==> (#[trigger] r@[i]).range_spec().wf(),
        forall|i: int|
            0 <= i < r@.len() - 1 ==> (#[trigger] r@[i]).range_spec().end == r@[
                i + 1
            ].range_spec().start,
        r@.len() > 0 ==> r@[0].range_spec().start == node_range(*n).start && r@[
            r@.len() - 1
        ].range_spec().end == node_range(*n).end,
        r@.len() == 0 ==> node_range(*n).start == node_range(*n).end,
{
    n.children_with_tokens().map(
        |el| match el {
            rowan::NodeOrToken::Node(child) => SyntaxElement::Node(SyntaxNode { inner: child }),
            rowan::NodeOrToken::Token(tok) => SyntaxElement::Token(SyntaxToken { inner: tok }),
        },
    ).collect()
}

/// Relies on CursorNode::descendants_with_tokens: every element of this
/// node's subtree, itself included, once each, in document pre-order; the
/// texts of the tokens among them concatenate to the node's own text.
#[verifier::external_body]
fn rowan_descendant_elements(n: &CursorNode) -> (r: Vec<SyntaxElement>)
    ensures
        elements_token_texts(r@) == node_token_texts(*n),
        texts_concat(elements_token_texts(r@)) == node_text(*n),
{
    n.descendants_with_tokens().map(
        |el| match el {
            rowan::NodeOrToken::Node(child) => SyntaxElement::Node(SyntaxNode { inner: child }),
            rowan::NodeOrToken::Token(tok) => SyntaxElement::Token(SyntaxToken { inner: tok }),
        },
    ).collect()
}

/// The texts of the tokens among a list of elements, in order.
pub open spec fn elements_token_texts(els: Seq<SyntaxElement>) -> Seq<Seq<char>>
    decreases els.len(),
{
    if els.len() == 0 {
        Seq::empty()
    } else {
        let rest = elements_token_texts(els.drop_first());
        match els[0] {
            SyntaxElement::Token(tok) => seq![tok.text_spec()] + rest,
            SyntaxElement::Node(_) => rest,
        }
    }
}

/// Collect the texts of the tokens among `els`, in order.
fn collect_token_texts(els: &Vec<SyntaxElement>) -> (r: Vec<String>)
    ensures
        r@.map_values(|p: String| p@) == elements_token_texts(els@),
{
    let mut out: Vec<String> = Vec::new();
    let mut i: usize = 0;
    let n = els.len();
    proof {
        assert(els@.skip(0) =~= els@);
        assert(out@.map_values(|p: String| p@) =~= Seq::<Seq<char>>::empty());
        assert(Seq::<Seq<char>>::empty() + elements_token_texts(els@) =~= elements_token_texts(
            els@,
        ));
    }
    while i < n
        invariant
            i <= n == els@.len(),
            elements_token_texts(els@) == out@.map_values(|p: String| p@)
                + elements_token_texts(els@.skip(i as int)),
        decreases n - i,
    {
        let ghost out_vs = out@.map_values(|p: String| p@);
        proof {
            assert(els@.skip(i as int)[0] == els@[i as int]);
            assert(els@.skip(i as int).drop_first() =~= els@.skip(i + 1));
        }
        if let SyntaxElement::Token(tok) = &els[i] {
            let piece = tok.text();
            out.push(piece);
            proof {
                assert(out@.map_values(|p: String| p@) =~= out_vs.push(
                    els@[i as int]->Token_0.text_spec(),
                ));
                assert((out_vs + seq![els@[i as int]->Token_0.text_spec()])
                    + elements_token_texts(els@.skip(i + 1)) =~= out_vs + (seq![
                    els@[i as int]->Token_0.text_spec(),
                ] + elements_token_texts(els@.skip(i + 1))));
            }
        }
        i = i + 1;
    }
    proof {
        assert(els@.skip(n as int) =~= Seq::<SyntaxElement>::empty());
        assert(out@.map_values(|p: String| p@) + Seq::<Seq<char>>::empty() =~= out@.map_values(
            |p: String| p@,
        ));
    }
    out
}

/// The concatenation of a list of piece strings, in order.
pub open spec fn pieces_text(ps: Seq<String>) -> Seq<char> {
    texts_concat(ps.map_values(|p: String| p@))
}

/// The concatenation of a sequence of texts, in order.
pub open spec fn texts_concat(ss: Seq<Seq<char>>) -> Seq<char>
    decreases ss.len(),
{
    if ss.len() == 0 {
        Seq::empty()
    } else {
        ss[0] + texts_concat(ss.drop_first())
    }
}

/// Concatenation splits at any point: the whole is the prefix part
/// followed by the suffix part.
pub proof fn lemma_texts_concat_split(ss: Seq<Seq<char>>, i: int)
    requires
        0 <= i <= ss.len(),
    ensures
        texts_concat(ss) == texts_concat(ss.take(i)) + texts_concat(ss.skip(i)),
    decreases i,
{
    if i == 0 {
        assert(ss.take(0) =~= Seq::<Seq<char>>::empty());
        assert(ss.skip(0) =~= ss);
        assert(texts_concat(ss.take(0)) + texts_concat(ss) =~= texts_concat(ss));
    } else {
        let dd = ss.drop_first();
        lemma_texts_concat_split(dd, i - 1);
        assert(dd.take(i - 1) =~= ss.take(i).drop_first());
        assert(dd.skip(i - 1) =~= ss.skip(i));
        assert(ss.take(i)[0] == ss[0]);
        assert(texts_concat(ss.take(i)) == ss[0] + texts_concat(dd.take(i - 1)));
        assert((ss[0] + texts_concat(dd.take(i - 1))) + texts_concat(ss.skip(i)) =~= ss[0] + (
        texts_concat(dd.take(i - 1)) + texts_concat(ss.skip(i))));
    }
}

/// Concatenation grows one text at a time: the prefix through `i` is the
/// prefix before it followed by the text at `i`.
pub proof fn lemma_texts_concat_take_push(ss: Seq<Seq<char>>, i: int)
    requires
        0 <= i < ss.len(),
    ensures
        texts_concat(ss.take(i + 1)) == texts_concat(ss.take(i)) + ss[i],
{
    let tt = ss.take(i + 1);
    lemma_texts_concat_split(tt, i);
    assert(tt.take(i) =~= ss.take(i));
    assert(tt.skip(i) =~= seq![ss[i]]);
    assert(seq![ss[i]].drop_first() =~= Seq::<Seq<char>>::empty());
    assert(texts_concat(Seq::<Seq<char>>::empty()) == Seq::<char>::empty());
    assert(texts_concat(seq![ss[i]]) == ss[i] + Seq::<char>::empty());
    assert(ss[i] + Seq::<char>::empty() =~= ss[i]);
}

/// The text at `i` sits in the whole concatenation right after the prefix
/// before it.
pub proof fn lemma_texts_concat_extract(ss: Seq<Seq<char>>, i: int)
    requires
        0 <= i < ss.len(),
    ensures
        texts_concat(ss) == texts_concat(ss.take(i)) + ss[i] + texts_concat(ss.skip(i + 1)),
        texts_concat(ss.take(i)).len() + ss[i].len() <= texts_concat(ss).len(),
{
    lemma_texts_concat_split(ss, i + 1);
    lemma_texts_concat_take_push(ss, i);
}

/// The text of one child element, node or token.
pub open spec fn element_text(el: SyntaxElement) -> Seq<char> {
    match el {
        SyntaxElement::Node(n) => n.text_spec(),
        SyntaxElement::Token(t) => t.text_spec(),
    }
}

/// The concatenated text of a sequence of child elements.
pub open spec fn elements_text(els: Seq<SyntaxElement>) -> Seq<char> {
    texts_concat(els.map_values(|el| element_text(el)))
}

/// A root-ward chain: each node's parent is the next entry, and the last
/// entry has no parent.
pub open spec fn parent_chain(nodes: Seq<SyntaxNode>) -> bool {
    &&& nodes.len() >= 1
    &&& forall|i: int|
        0 <= i < nodes.len() - 1 ==> (#[trigger] nodes[i]).parent_spec() == Some(nodes[i + 1])
    &&& nodes[nodes.len() - 1].parent_spec() is None
}

/// The nesting depth after a walk's events: each Enter goes one deeper,
/// each Leave comes back up.
pub open spec fn walk_depth<T>(events: Seq<WalkEvent<T>>) -> int
    decreases events.len(),
{
    if events.len() == 0 {
        0
    } else {
        walk_depth(events.drop_last()) + (match events.last() {
            WalkEvent::Enter(_) => 1int,
            WalkEvent::Leave(_) => -1int,
        })
    }
}

/// How often a walk enters the element `x`.
pub open spec fn enter_count<T>(events: Seq<WalkEvent<T>>, x: T) -> int
    decreases events.len(),
{
    if events.len() == 0 {
        0
    } else {
        enter_count(events.drop_last(), x) + (if events.last() == WalkEvent::Enter(x) {
            1int
        } else {
            0int
        })
    }
}

/// How often a walk leaves the element `x`.
pub open spec fn leave_count<T>(events: Seq<WalkEvent<T>>, x: T) -> int
    decreases events.len(),
{
    if events.len() == 0 {
        0
    } else {
        leave_count(events.drop_last(), x) + (if events.last() == WalkEvent::Leave(x) {
            1int
        } else {
            0int
        })
    }
}

/// The texts of the tokens a walk enters, in the order it enters them.
pub open spec fn walk_token_texts(events: Seq<WalkEvent<SyntaxElement>>) -> Seq<Seq<char>>
    decreases events.len(),
{
    if events.len() == 0 {
        Seq::empty()
    } else {
        walk_token_texts(events.drop_last()) + (match events.last() {
            WalkEvent::Enter(el) => match el {
                SyntaxElement::Token(tok) => seq![tok.text_spec()],
                SyntaxElement::Node(_) => Seq::empty(),
            },
            WalkEvent::Leave(_) => Seq::empty(),
        })
    }
}

/// One element's text is never longer than the concatenation of them all:
/// this carries a length bound from a node down to each of its children.
pub proof fn lemma_elements_text_bound(els: Seq<SyntaxElement>, i: int)
    requires
        0 <= i < els.len(),
    ensures
        element_text(els[i]).len() <= elements_text(els).len(),
{
    lemma_texts_concat_extract(els.map_values(|el| element_text(el)), i);
}

// ---------------------------------------------------------------------------
// The red layer: position-aware views over the stored tree.
// ---------------------------------------------------------------------------

/// Which way a sibling walk goes.
#[derive(Debug, Clone, Copy, PartialEq, Eq, Structural)]
pub enum Direction {
    Next,
    Prev,
}

/// Where an element would be inserted relative to its siblings.
#[derive(Debug, PartialEq, Eq, Clone, Copy)]
pub enum InsertPosition<T> {
    First,
    Last,
    Before(T),
    After(T),
}

/// One step of a depth-first tree walk: entering a subtree or leaving it.
#[derive(Debug, Clone, Copy, PartialEq, Eq)]
pub enum WalkEvent<T> {
    Enter(T),
    Leave(T),
}

/// An interior node of a frozen syntax tree.
pub struct SyntaxNode {
    pub(crate) inner: CursorNode,
}

/// A leaf token of a frozen syntax tree.
pub struct SyntaxToken {
    pub(crate) inner: CursorToken,
}

/// A node or a token.
pub enum SyntaxElement {
    Node(SyntaxNode),
    Token(SyntaxToken),
}

/// Anything that is a view of a syntax node: the concrete node itself and
/// every typed wrapper over one.
pub trait SyntaxNodeWrapper {
    fn syntax(&self) -> &SyntaxNode;
}

impl SyntaxNodeWrapper for SyntaxNode {
    fn syntax(&self) -> &SyntaxNode {
        self
    }
}

impl Clone for SyntaxNode {
    fn clone(&self) -> (r: Self)
        ensures
            r == *self,
    {
        SyntaxNode { inner: rowan_node_clone(&self.inner) }
    }
}

impl Clone for SyntaxToken {
    fn clone(&self) -> (r: Self)
        ensures
            r == *self,
    {
        SyntaxToken { inner: rowan_token_clone(&self.inner) }
    }
}

impl SyntaxNode {
    /// The kind this node was built with.
    pub closed spec fn kind_spec(self) -> SyntaxKind {
        code_kind(node_kind_code(self.inner))
    }

    /// The text this node covers.
    pub closed spec fn text_spec(self) -> Seq<char> {
        node_text(self.inner)
    }

    /// The texts of this node's descendant tokens, in document order; they
    /// concatenate to the node's own text.
    pub closed spec fn token_texts_spec(self) -> Seq<Seq<char>> {
        node_token_texts(self.inner)
    }

    /// Where this node stands in the whole document: byte positions of the
    /// stored UTF-8 text, the one measure the storage engine keeps.
    pub closed spec fn range_spec(self) -> TextRange {
        node_range(self.inner)
    }

    /// The parent of this node, when it has one.
    pub closed spec fn parent_spec(self) -> Option<SyntaxNode> {
        match node_parent(self.inner) {
            Some(p) => Some(SyntaxNode { inner: p }),
            None => None,
        }
    }

    /// The first interior-node child.
    pub closed spec fn first_child_spec(self) -> Option<SyntaxNode> {
        match node_first_child(self.inner) {
            Some(p) => Some(SyntaxNode { inner: p }),
            None => None,
        }
    }

    /// The last interior-node child.
    pub closed spec fn last_child_spec(self) -> Option<SyntaxNode> {
        match node_last_child(self.inner) {
            Some(p) => Some(SyntaxNode { inner: p }),
            None => None,
        }
    }

    /// The next interior-node sibling.
    pub closed spec fn next_sibling_spec(self) -> Option<SyntaxNode> {
        match node_next_sibling(self.inner) {
            Some(p) => Some(SyntaxNode { inner: p }),
            None => None,
        }
    }

    /// The previous interior-node sibling.
    pub closed spec fn prev_sibling_spec(self) -> Option<SyntaxNode> {
        match node_prev_sibling(self.inner) {
            Some(p) => Some(SyntaxNode { inner: p }),
            None => None,
        }
    }

    /// The interior-node children, in left-to-right order.
    pub closed spec fn children_spec(self) -> Seq<SyntaxNode> {
        node_children(self.inner).map_values(|c: CursorNode| SyntaxNode { inner: c })
    }

    /// The first child, node or token.
    pub closed spec fn first_child_or_token_spec(self) -> Option<SyntaxElement> {
        node_first_elem(self.inner)
    }

    /// The last child, node or token.
    pub closed spec fn last_child_or_token_spec(self) -> Option<SyntaxElement> {
        node_last_elem(self.inner)
    }

    /// The next sibling, node or token.
    pub closed spec fn next_sibling_or_token_spec(self) -> Option<SyntaxElement> {
        node_next_elem(self.inner)
    }

    /// The previous sibling, node or token.
    pub closed spec fn prev_sibling_or_token_spec(self) -> Option<SyntaxElement> {
        node_prev_elem(self.inner)
    }

    pub fn kind(&self) -> (r: SyntaxKind)
        ensures
            r == self.kind_spec(),
    {
        SyntaxKind::from_code(rowan_node_kind(&self.inner))
    }

    /// Where this node stands in the whole document, in bytes of the
    /// stored UTF-8 text; `start` and `end` never run backwards.
    pub fn range(&self) -> (r: TextRange)
        ensures
            r == self.range_spec(),
            r.wf(),
    {
        rowan_node_range(&self.inner)
    }

    pub fn parent(&self) -> (r: Option<SyntaxNode>)
        ensures
            r == self.parent_spec(),
    {
        match rowan_node_parent(&self.inner) {
            Some(n) => Some(SyntaxNode { inner: n }),
            None => None,
        }
    }

    pub fn first_child(&self) -> (r: Option<SyntaxNode>)
        ensures
            r == self.first_child_spec(),
    {
        match rowan_node_first_child(&self.inner) {
            Some(n) => Some(SyntaxNode { inner: n }),
            None => None,
        }
    }

    pub fn last_child(&self) -> (r: Option<SyntaxNode>)
        ensures
            r == self.last_child_spec(),
    {
        match rowan_node_last_child(&self.inner) {
            Some(n) => Some(SyntaxNode { inner: n }),
            None => None,
        }
    }

    pub fn next_sibling(&self) -> (r: Option<SyntaxNode>)
        ensures
            r == self.next_sibling_spec(),
    {
        match rowan_node_next_sibling(&self.inner) {
            Some(n) => Some(SyntaxNode { inner: n }),
            None => None,
        }
    }

    pub fn prev_sibling(&self) -> (r: Option<SyntaxNode>)
        ensures
            r == self.prev_sibling_spec(),
    {
        match rowan_node_prev_sibling(&self.inner) {
            Some(n) => Some(SyntaxNode { inner: n }),
            None => None,
        }
    }

    /// The node children, in left-to-right order.
    pub fn children(&self) -> (r: Vec<SyntaxNode>)
        ensures
            r@ == self.children_spec(),
    {
        let r = rowan_node_children(&self.inner);
        proof {
            assert(r@ =~= self.children_spec());
        }
        r
    }

    /// All children, nodes and tokens alike, in left-to-right order; their
    /// texts concatenate, in that order, to this node's own text, and
    /// their stored byte ranges partition this node's own range:
    /// contiguous, in order, the first opening and the last closing it.
    pub fn children_with_tokens(&self) -> (r: Vec<SyntaxElement>)
        ensures
            elements_text(r@) == self.text_spec(),
            forall|i: int| 0 <= i < r@.len() ==> (#[trigger] r@[i]).range_spec().wf(),
            forall|i: int|
                0 <= i < r@.len() - 1 ==> (#[trigger] r@[i]).range_spec().end == r@[
                    i + 1
                ].range_spec().start,
            r@.len() > 0 ==> r@[0].range_spec().start == self.range_spec().start && r@[
                r@.len() - 1
            ].range_spec().end == self.range_spec().end,
            r@.len() == 0 ==> self.range_spec().start == self.range_spec().end,
    {
        rowan_node_children_with_tokens(&self.inner)
    }

    /// The first child, node or token.
    pub fn first_child_or_token(&self) -> (r: Option<SyntaxElement>)
        ensures
            r == self.first_child_or_token_spec(),
    {
        rowan_node_first_child_or_token(&self.inner)
    }

    /// The last child, node or token.
    pub fn last_child_or_token(&self) -> (r: Option<SyntaxElement>)
        ensures
            r == self.last_child_or_token_spec(),
    {
        rowan_node_last_child_or_token(&self.inner)
    }

    /// The next sibling, node or token.
    pub fn next_sibling_or_token(&self) -> (r: Option<SyntaxElement>)
        ensures
            r == self.next_sibling_or_token_spec(),
    {
        rowan_node_next_sibling_or_token(&self.inner)
    }

    /// The previous sibling, node or token.
    pub fn prev_sibling_or_token(&self) -> (r: Option<SyntaxElement>)
        ensures
            r == self.prev_sibling_or_token_spec(),
    {
        rowan_node_prev_sibling_or_token(&self.inner)
    }

    /// This node, then the chain of its parents, step by step up to the
    /// root, which has no parent.
    pub fn ancestors(&self) -> (r: Vec<SyntaxNode>)
        ensures
            parent_chain(r@),
            r@[0] == *self,
    {
        let r = rowan_node_ancestors(&self.inner);
        proof {
            assert forall|i: int|
                0 <= i < r@.len() - 1 implies (#[trigger] r@[i]).parent_spec() == Some(
                r@[i + 1],
            ) by {
                assert(node_parent(r@[i].inner) == Some(r@[i + 1].inner));
            }
        }
        r
    }

    /// The first token of this subtree, in document order: its text opens
    /// this node's token-text list.
    pub fn first_token(&self) -> (r: Option<SyntaxToken>)
        ensures
            r is Some <==> self.token_texts_spec().len() > 0,
            r is Some ==> r->0.text_spec() == self.token_texts_spec()[0],
    {
        rowan_node_first_token(&self.inner)
    }

    /// The last token of this subtree, in document order: its text closes
    /// this node's token-text list.
    pub fn last_token(&self) -> (r: Option<SyntaxToken>)
        ensures
            r is Some <==> self.token_texts_spec().len() > 0,
            r is Some ==> r->0.text_spec() == self.token_texts_spec()[
                self.token_texts_spec().len() - 1
            ],
    {
        rowan_node_last_token(&self.inner)
    }

    /// This node, then its siblings onward in the given direction, step by
    /// step to the end of the chain.
    pub fn siblings(&self, direction: Direction) -> (r: Vec<SyntaxNode>)
        ensures
            r@.len() >= 1,
            r@[0] == *self,
            direction == Direction::Next ==> (forall|i: int|
                0 <= i < r@.len() - 1 ==> (#[trigger] r@[i]).next_sibling_spec() == Some(
                    r@[i + 1],
                )) && r@[r@.len() - 1].next_sibling_spec() is None,
            direction == Direction::Prev ==> (forall|i: int|
                0 <= i < r@.len() - 1 ==> (#[trigger] r@[i]).prev_sibling_spec() == Some(
                    r@[i + 1],
                )) && r@[r@.len() - 1].prev_sibling_spec() is None,
    {
        let r = rowan_node_siblings(&self.inner, direction);
        proof {
            if direction == Direction::Next {
                assert forall|i: int|
                    0 <= i < r@.len() - 1 implies (#[trigger] r@[i]).next_sibling_spec() == Some(
                    r@[i + 1],
                ) by {
                    assert(node_next_sibling(r@[i].inner) == Some(r@[i + 1].inner));
                }
            } else {
                assert forall|i: int|
                    0 <= i < r@.len() - 1 implies (#[trigger] r@[i]).prev_sibling_spec() == Some(
                    r@[i + 1],
                ) by {
                    assert(node_prev_sibling(r@[i].inner) == Some(r@[i + 1].inner));
                }
            }
        }
        r
    }

    /// This node as an element, then its element siblings — nodes and
    /// tokens alike — onward in the given direction, step by step to the
    /// end of the chain.
    pub fn siblings_with_tokens(&self, direction: Direction) -> (r: Vec<SyntaxElement>)
        ensures
            r@.len() >= 1,
            r@[0] == (SyntaxElement::Node(*self)),
            direction == Direction::Next ==> (forall|i: int|
                0 <= i < r@.len() - 1 ==> (#[trigger] r@[i]).next_sibling_or_token_spec() == Some(
                    r@[i + 1],
                )) && r@[r@.len() - 1].next_sibling_or_token_spec() is None,
            direction == Direction::Prev ==> (forall|i: int|
                0 <= i < r@.len() - 1 ==> (#[trigger] r@[i]).prev_sibling_or_token_spec() == Some(
                    r@[i + 1],
                )) && r@[r@.len() - 1].prev_sibling_or_token_spec() is None,
    {
        rowan_node_siblings_with_tokens(&self.inner, direction)
    }

    /// The enter/leave events of a depth-first walk over this subtree's
    /// nodes: this node is entered first and left last, the events nest
    /// properly, and the depth returns to zero at the end.
    pub fn preorder(&self) -> (r: Vec<WalkEvent<SyntaxNode>>)
        ensures
            r@.len() >= 2,
            r@[0] == (WalkEvent::Enter(*self)),
            r@[r@.len() - 1] == (WalkEvent::Leave(*self)),
            walk_depth(r@) == 0,
            forall|k: int| 0 < k < r@.len() ==> walk_depth(#[trigger] r@.take(k)) >= 1,
            forall|x: SyntaxNode|
                #[trigger] enter_count(r@, x) <= 1 && enter_count(r@, x) == leave_count(r@, x),
    {
        rowan_node_preorder(&self.inner)
    }

    /// Every element of this subtree, this node included, once each, in
    /// document pre-order; the texts of the tokens among them spell out
    /// this node's own text.
    pub fn descendants_with_tokens(&self) -> (r: Vec<SyntaxElement>)
        ensures
            elements_token_texts(r@) == self.token_texts_spec(),
            texts_concat(elements_token_texts(r@)) == self.text_spec(),
    {
        rowan_descendant_elements(&self.inner)
    }

    /// The enter/leave events of a depth-first walk over this subtree's
    /// nodes and tokens: this node is entered first and left last, the
    /// events nest properly, the depth returns to zero, and the entered
    /// tokens' texts spell out this node's own text in document order.
    pub fn preorder_with_tokens(&self) -> (r: Vec<WalkEvent<SyntaxElement>>)
        ensures
            r@.len() >= 2,
            r@[0] == (WalkEvent::Enter(SyntaxElement::Node(*self))),
            r@[r@.len() - 1] == (WalkEvent::Leave(SyntaxElement::Node(*self))),
            walk_depth(r@) == 0,
            forall|k: int| 0 < k < r@.len() ==> walk_depth(#[trigger] r@.take(k)) >= 1,
            texts_concat(walk_token_texts(r@)) == self.text_spec(),
            forall|x: SyntaxElement|
                #[trigger] enter_count(r@, x) <= 1 && enter_count(r@, x) == leave_count(r@, x),
    {
        rowan_node_preorder_with_tokens(&self.inner)
    }
}

impl SyntaxToken {
    /// The kind this token was built with.
    pub closed spec fn kind_spec(self) -> SyntaxKind {
        code_kind(token_kind_code(self.inner))
    }

    /// The text this token covers.
    pub closed spec fn text_spec(self) -> Seq<char> {
        token_text(self.inner)
    }

    /// Where this token stands in the whole document: byte positions of
    /// the stored UTF-8 text.
    pub closed spec fn range_spec(self) -> TextRange {
        token_range(self.inner)
    }

    /// The parent node of this token, when it has one.
    pub closed spec fn parent_spec(self) -> Option<SyntaxNode> {
        match token_parent(self.inner) {
            Some(p) => Some(SyntaxNode { inner: p }),
            None => None,
        }
    }

    /// The token after this one in document order.
    pub closed spec fn next_token_spec(self) -> Option<SyntaxToken> {
        match token_next_token(self.inner) {
            Some(x) => Some(SyntaxToken { inner: x }),
            None => None,
        }
    }

    /// The token before this one in document order.
    pub closed spec fn prev_token_spec(self) -> Option<SyntaxToken> {
        match token_prev_token(self.inner) {
            Some(x) => Some(SyntaxToken { inner: x }),
            None => None,
        }
    }

    /// The next sibling, node or token.
    pub closed spec fn next_sibling_or_token_spec(self) -> Option<SyntaxElement> {
        token_next_elem(self.inner)
    }

    /// The previous sibling, node or token.
    pub closed spec fn prev_sibling_or_token_spec(self) -> Option<SyntaxElement> {
        token_prev_elem(self.inner)
    }

    pub fn kind(&self) -> (r: SyntaxKind)
        ensures
            r == self.kind_spec(),
    {
        SyntaxKind::from_code(rowan_token_kind(&self.inner))
    }

    pub fn text(&self) -> (r: String)
        ensures
            r@ == self.text_spec(),
    {
        rowan_token_text(&self.inner)
    }

    /// Where this token stands in the whole document, in bytes of the
    /// stored UTF-8 text; `start` and `end` never run backwards.
    pub fn range(&self) -> (r: TextRange)
        ensures
            r == self.range_spec(),
            r.wf(),
    {
        rowan_token_range(&self.inner)
    }

    pub fn parent(&self) -> (r: Option<SyntaxNode>)
        ensures
            r == self.parent_spec(),
    {
        match rowan_token_parent(&self.inner) {
            Some(n) => Some(SyntaxNode { inner: n }),
            None => None,
        }
    }

    /// The next sibling, node or token.
    pub fn next_sibling_or_token(&self) -> (r: Option<SyntaxElement>)
        ensures
            r == self.next_sibling_or_token_spec(),
    {
        rowan_token_next_sibling_or_token(&self.inner)
    }

    /// The previous sibling, node or token.
    pub fn prev_sibling_or_token(&self) -> (r: Option<SyntaxElement>)
        ensures
            r == self.prev_sibling_or_token_spec(),
    {
        rowan_token_prev_sibling_or_token(&self.inner)
    }

    /// The token after this one in document order, anywhere in the tree.
    pub fn next_token(&self) -> (r: Option<SyntaxToken>)
        ensures
            r == self.next_token_spec(),
    {
        rowan_token_next_token(&self.inner)
    }

    /// The token before this one in document order, anywhere in the tree.
    pub fn prev_token(&self) -> (r: Option<SyntaxToken>)
        ensures
            r == self.prev_token_spec(),
    {
        rowan_token_prev_token(&self.inner)
    }

    /// This token as an element, then its element siblings onward in the
    /// given direction, step by step to the end of the chain.
    pub fn siblings_with_tokens(&self, direction: Direction) -> (r: Vec<SyntaxElement>)
        ensures
            r@.len() >= 1,
            r@[0] == (SyntaxElement::Token(*self)),
            direction == Direction::Next ==> (forall|i: int|
                0 <= i < r@.len() - 1 ==> (#[trigger] r@[i]).next_sibling_or_token_spec() == Some(
                    r@[i + 1],
                )) && r@[r@.len() - 1].next_sibling_or_token_spec() is None,
            direction == Direction::Prev ==> (forall|i: int|
                0 <= i < r@.len() - 1 ==> (#[trigger] r@[i]).prev_sibling_or_token_spec() == Some(
                    r@[i + 1],
                )) && r@[r@.len() - 1].prev_sibling_or_token_spec() is None,
    {
        rowan_token_siblings_with_tokens(&self.inner, direction)
    }
}

impl SyntaxElement {
    /// The kind of the element, whichever side it is.
    pub open spec fn kind_spec(self) -> SyntaxKind {
        match self {
            SyntaxElement::Node(n) => n.kind_spec(),
            SyntaxElement::Token(t) => t.kind_spec(),
        }
    }

    pub fn kind(&self) -> (r: SyntaxKind)
        ensures
            r == self.kind_spec(),
    {
        match self {
            SyntaxElement::Node(n) => n.kind(),
            SyntaxElement::Token(t) => t.kind(),
        }
    }

    /// The node inside, when the element is a node.
    pub fn as_node(&self) -> (r: Option<&SyntaxNode>)
        ensures
            self is Node <==> r is Some,
            r is Some ==> *r->0 == self->Node_0,
    {
        match self {
            SyntaxElement::Node(n) => Some(n),
            SyntaxElement::Token(_) => None,
        }
    }

    /// The token inside, when the element is a token.
    pub fn as_token(&self) -> (r: Option<&SyntaxToken>)
        ensures
            self is Token <==> r is Some,
            r is Some ==> *r->0 == self->Token_0,
    {
        match self {
            SyntaxElement::Node(_) => None,
            SyntaxElement::Token(t) => Some(t),
        }
    }

    /// Where the element stands in the whole document, whichever side it
    /// is: byte positions of the stored UTF-8 text.
    pub open spec fn range_spec(self) -> TextRange {
        match self {
            SyntaxElement::Node(n) => n.range_spec(),
            SyntaxElement::Token(t) => t.range_spec(),
        }
    }

    /// The next sibling of the element, whichever side it is.
    pub open spec fn next_sibling_or_token_spec(self) -> Option<SyntaxElement> {
        match self {
            SyntaxElement::Node(n) => n.next_sibling_or_token_spec(),
            SyntaxElement::Token(t) => t.next_sibling_or_token_spec(),
        }
    }

    /// The previous sibling of the element, whichever side it is.
    pub open spec fn prev_sibling_or_token_spec(self) -> Option<SyntaxElement> {
        match self {
            SyntaxElement::Node(n) => n.prev_sibling_or_token_spec(),
            SyntaxElement::Token(t) => t.prev_sibling_or_token_spec(),
        }
    }

    /// Where the element stands in the whole document, in bytes of the
    /// stored UTF-8 text.
    pub fn range(&self) -> (r: TextRange)
        ensures
            r == self.range_spec(),
            r.wf(),
    {
        match self {
            SyntaxElement::Node(n) => n.range(),
            SyntaxElement::Token(t) => t.range(),
        }
    }

    /// The root-ward walk from this element: for a node, the node itself
    /// and its parent chain; for a token, its parent's chain, or nothing
    /// when the token is detached.
    pub fn ancestors(&self) -> (r: Vec<SyntaxNode>)
        ensures
            self is Node ==> parent_chain(r@) && r@[0] == self->Node_0,
            self is Token && self->Token_0.parent_spec() is Some ==> parent_chain(r@) && r@[0]
                == self->Token_0.parent_spec()->0,
            self is Token && self->Token_0.parent_spec() is None ==> r@.len() == 0,
    {
        match self {
            SyntaxElement::Node(n) => n.ancestors(),
            SyntaxElement::Token(t) => match t.parent() {
                Some(p) => p.ancestors(),
                None => Vec::new(),
            },
        }
    }

    /// The next sibling of the element, node or token.
    pub fn next_sibling_or_token(&self) -> (r: Option<SyntaxElement>)
        ensures
            r == self.next_sibling_or_token_spec(),
    {
        match self {
            SyntaxElement::Node(n) => n.next_sibling_or_token(),
            SyntaxElement::Token(t) => t.next_sibling_or_token(),
        }
    }

    /// The previous sibling of the element, node or token.
    pub fn prev_sibling_or_token(&self) -> (r: Option<SyntaxElement>)
        ensures
            r == self.prev_sibling_or_token_spec(),
    {
        match self {
            SyntaxElement::Node(n) => n.prev_sibling_or_token(),
            SyntaxElement::Token(t) => t.prev_sibling_or_token(),
        }
    }
}

impl SyntaxNode {
    /// The text this node covers, as a lazy chunked view. The storage
    /// engine measures text in 32-bit sizes, so the node's text must fit
    /// that width; a tree root carries this bound as its invariant, and
    /// `lemma_elements_text_bound` passes it from a node to its children.
    pub fn text(&self) -> (r: crate::syntax_text::SyntaxText)
        requires
            self.text_spec().len() <= u32::MAX,
        ensures
            r.text_spec() == self.text_spec(),
            r.pieces_spec() == self.token_texts_spec(),
    {
        let elements = rowan_descendant_elements(&self.inner);
        let pieces = collect_token_texts(&elements);
        crate::syntax_text::SyntaxText::new_whole(pieces)
    }
}

// ---------------------------------------------------------------------------
// The builder facade: stack-disciplined construction, diagnostics recorded
// out-of-band, and freezing into an owned tree.
// ---------------------------------------------------------------------------

/// A frozen syntax tree: the root node view and the diagnostic side-table
/// recorded while the tree was built, sorted by offset.
pub struct SyntaxTree {
    pub(crate) root: SyntaxNode,
    pub(crate) errors: Vec<SyntaxError>,
}

/// Whether a diagnostic list is ordered by the offsets the diagnostics
/// point at.
pub open spec fn errors_sorted(errors: Seq<(Seq<char>, Location)>) -> bool {
    forall|i: int, j: int|
        0 <= i < j < errors.len() ==> errors[i].1.offset_spec() <= errors[j].1.offset_spec()
}

impl Clone for SyntaxTree {
    /// Cloning an owning handle shares the frozen tree; only the
    /// diagnostic list is copied.
    fn clone(&self) -> (r: Self)
        ensures
            r.root_spec() == self.root_spec(),
            r.errors_spec() == self.errors_spec(),
    {
        proof {
            use_type_invariant(&*self);
        }
        SyntaxTree { root: self.root.clone(), errors: self.errors() }
    }
}

impl SyntaxTree {
    /// The text the whole tree covers.
    pub closed spec fn text_spec(self) -> Seq<char> {
        self.root.text_spec()
    }

    /// The diagnostics attached to the root, as message text and location.
    pub closed spec fn errors_spec(self) -> Seq<(Seq<char>, Location)> {
        self.errors@.map_values(|e: SyntaxError| e@)
    }

    /// The side-table is always kept in offset order, and the tree's text
    /// fits the storage engine's 32-bit sizes.
    #[verifier::type_invariant]
    closed spec fn tree_inv(self) -> bool {
        errors_sorted(self.errors_spec()) && self.root.text_spec().len() <= u32::MAX
    }

    /// The root node view.
    pub closed spec fn root_spec(self) -> SyntaxNode {
        self.root
    }

    pub fn root(&self) -> (r: &SyntaxNode)
        ensures
            *r == self.root_spec(),
            r.text_spec() == self.text_spec(),
            r.text_spec().len() <= u32::MAX,
    {
        proof {
            use_type_invariant(&*self);
        }
        &self.root
    }

    /// Take the tree apart into its root view and its diagnostic
    /// side-table.
    pub fn into_parts(self) -> (r: (SyntaxNode, Vec<SyntaxError>))
        ensures
            r.0 == self.root_spec(),
            r.1@.map_values(|e: SyntaxError| e@) == self.errors_spec(),
            errors_sorted(r.1@.map_values(|e: SyntaxError| e@)),
    {
        proof {
            use_type_invariant(&self);
        }
        let SyntaxTree { root, errors } = self;
        (root, errors)
    }

    /// The diagnostic side-table, in offset order.
    pub fn errors(&self) -> (r: Vec<SyntaxError>)
        ensures
            r@.map_values(|e: SyntaxError| e@) == self.errors_spec(),
            errors_sorted(r@.map_values(|e: SyntaxError| e@)),
    {
        proof {
            use_type_invariant(&*self);
        }
        let mut out: Vec<SyntaxError> = Vec::new();
        let mut i: usize = 0;
        let n = self.errors.len();
        while i < n
            invariant
                i <= n == self.errors@.len(),
                out@.len() == i,
                forall|j: int| 0 <= j < i ==> (#[trigger] out@[j])@ == self.errors@[j]@,
            decreases n - i,
        {
            out.push(self.errors[i].clone());
            i = i + 1;
        }
        proof {
            assert(out@.map_values(|e: SyntaxError| e@) =~= self.errors@.map_values(
                |e: SyntaxError| e@,
            ));
        }
        out
    }
}

/// Stack-disciplined tree construction: every started node must later be
/// finished, and a tree can only be frozen once exactly one completed node
/// stands at the top level. Diagnostics recorded along the way freeze into
/// the root's side-table.
pub struct SyntaxTreeBuilder {
    errors: Vec<SyntaxError>,
    inner: rowan::GreenNodeBuilder<'static>,
    depth: u32,
    roots: u32,
    top_tokens: u32,
}

impl Default for SyntaxTreeBuilder {
    fn default() -> (r: SyntaxTreeBuilder)
        ensures
            r.wf(),
            r.text_spec() == Seq::<char>::empty(),
            r.depth_spec() == 0,
            r.roots_spec() == 0,
            r.top_tokens_spec() == 0,
            r.open_kinds_spec() == Seq::<u16>::empty(),
            r.errors_spec() == Seq::<(Seq<char>, Location)>::empty(),
    {
        SyntaxTreeBuilder::new()
    }
}

impl SyntaxTreeBuilder {
    /// The counters mirror the stored builder's state, and the
    /// accumulated text stays small enough that its UTF-8 byte count — at
    /// most four bytes per character — fits the 32-bit sizes the storage
    /// engine uses.
    pub closed spec fn wf(self) -> bool {
        &&& self.depth == builder_depth(self.inner)
        &&& self.roots == builder_roots(self.inner)
        &&& self.top_tokens == builder_top_tokens(self.inner)
        &&& builder_text(self.inner).len() <= u32::MAX / 4
    }

    /// The concatenation, in call order, of the texts of all tokens handed
    /// to the builder so far.
    pub closed spec fn text_spec(self) -> Seq<char> {
        builder_text(self.inner)
    }

    /// How many nodes are started and not yet finished.
    pub closed spec fn depth_spec(self) -> int {
        builder_depth(self.inner)
    }

    /// How many elements are completed at the top level.
    pub closed spec fn roots_spec(self) -> int {
        builder_roots(self.inner)
    }

    /// How many completed top-level elements are bare tokens.
    pub closed spec fn top_tokens_spec(self) -> int {
        builder_top_tokens(self.inner)
    }

    /// The kind tags of the open nodes, outermost first.
    pub closed spec fn open_kinds_spec(self) -> Seq<u16> {
        builder_open_kinds(self.inner)
    }

    /// The kind tag of the most recently completed top-level node.
    pub closed spec fn root_kind_spec(self) -> u16 {
        builder_root_kind(self.inner)
    }

    /// The diagnostics recorded so far, in call order.
    pub closed spec fn errors_spec(self) -> Seq<(Seq<char>, Location)> {
        self.errors@.map_values(|e: SyntaxError| e@)
    }

    /// A builder may be frozen: balanced, with exactly one completed
    /// top-level element, and that element a node.
    pub open spec fn balanced(self) -> bool {
        self.depth_spec() == 0 && self.roots_spec() == 1 && self.top_tokens_spec() == 0
    }

    pub fn new() -> (r: SyntaxTreeBuilder)
        ensures
            r.wf(),
            r.text_spec() == Seq::<char>::empty(),
            r.depth_spec() == 0,
            r.roots_spec() == 0,
            r.top_tokens_spec() == 0,
            r.open_kinds_spec() == Seq::<u16>::empty(),
            r.errors_spec() == Seq::<(Seq<char>, Location)>::empty(),
    {
        let r = SyntaxTreeBuilder {
            errors: Vec::new(),
            inner: rowan_builder_new(),
            depth: 0,
            roots: 0,
            top_tokens: 0,
        };
        proof {
            assert(r.errors@.map_values(|e: SyntaxError| e@) =~= Seq::<(
                Seq<char>,
                Location,
            )>::empty());
        }
        r
    }

    /// Open an interior node; every started node must be finished later.
    pub fn start_node(&mut self, kind: SyntaxKind)
        requires
            old(self).wf(),
            old(self).depth_spec() < u32::MAX,
        ensures
            final(self).wf(),
            final(self).text_spec() == old(self).text_spec(),
            final(self).depth_spec() == old(self).depth_spec() + 1,
            final(self).roots_spec() == old(self).roots_spec(),
            final(self).top_tokens_spec() == old(self).top_tokens_spec(),
            final(self).open_kinds_spec() == old(self).open_kinds_spec().push(kind_code(kind)),
            final(self).root_kind_spec() == old(self).root_kind_spec(),
            final(self).errors_spec() == old(self).errors_spec(),
    {
        rowan_builder_start_node(&mut self.inner, kind);
        self.depth = self.depth + 1;
    }

    /// Append one leaf token holding exactly `text`. The character count
    /// accumulated over all tokens must stay within a quarter of the
    /// 32-bit range, so that the engine's byte counts — at most four bytes
    /// per character — never overflow.
    pub fn token(&mut self, kind: SyntaxKind, text: &str)
        requires
            old(self).wf(),
            old(self).text_spec().len() + text@.len() <= u32::MAX / 4,
            old(self).roots_spec() < u32::MAX,
            old(self).top_tokens_spec() < u32::MAX,
        ensures
            final(self).wf(),
            final(self).text_spec() == old(self).text_spec() + text@,
            final(self).depth_spec() == old(self).depth_spec(),
            final(self).errors_spec() == old(self).errors_spec(),
            old(self).depth_spec() == 0 ==> final(self).roots_spec() == old(self).roots_spec() + 1
                && final(self).top_tokens_spec() == old(self).top_tokens_spec() + 1,
            old(self).depth_spec() != 0 ==> final(self).roots_spec() == old(self).roots_spec()
                && final(self).top_tokens_spec() == old(self).top_tokens_spec(),
            final(self).open_kinds_spec() == old(self).open_kinds_spec(),
            final(self).root_kind_spec() == old(self).root_kind_spec(),
    {
        let at_top = self.depth == 0;
        rowan_builder_token(&mut self.inner, kind, text);
        if at_top {
            self.roots = self.roots + 1;
            self.top_tokens = self.top_tokens + 1;
        }
    }

    /// Close the innermost open node; there must be one.
    pub fn finish_node(&mut self)
        requires
            old(self).wf(),
            old(self).depth_spec() >= 1,
            old(self).roots_spec() < u32::MAX,
        ensures
            final(self).wf(),
            final(self).text_spec() == old(self).text_spec(),
            final(self).depth_spec() == old(self).depth_spec() - 1,
            final(self).top_tokens_spec() == old(self).top_tokens_spec(),
            final(self).open_kinds_spec() == old(self).open_kinds_spec().drop_last(),
            final(self).errors_spec() == old(self).errors_spec(),
            old(self).depth_spec() == 1 ==> final(self).roots_spec() == old(self).roots_spec() + 1
                && final(self).root_kind_spec() == old(self).open_kinds_spec().last(),
            old(self).depth_spec() != 1 ==> final(self).roots_spec() == old(self).roots_spec()
                && final(self).root_kind_spec() == old(self).root_kind_spec(),
    {
        let was_outermost = self.depth == 1;
        rowan_builder_finish_node(&mut self.inner);
        self.depth = self.depth - 1;
        if was_outermost {
            self.roots = self.roots + 1;
        }
    }

    /// Record a diagnostic at an absolute offset. Purely additive
    /// bookkeeping: it never aborts construction.
    pub fn error(&mut self, error: ParseError, text_pos: u32)
        requires
            old(self).wf(),
        ensures
            final(self).wf(),
            final(self).text_spec() == old(self).text_spec(),
            final(self).depth_spec() == old(self).depth_spec(),
            final(self).roots_spec() == old(self).roots_spec(),
            final(self).top_tokens_spec() == old(self).top_tokens_spec(),
            final(self).open_kinds_spec() == old(self).open_kinds_spec(),
            final(self).root_kind_spec() == old(self).root_kind_spec(),
            final(self).errors_spec() == old(self).errors_spec() + seq![
                (error.0@, Location::Offset(text_pos)),
            ],
    {
        let ghost before = self.errors@;
        let e = SyntaxError::new(
            SyntaxErrorKind::ParseError(error),
            Location::Offset(text_pos),
        );
        self.errors.push(e);
        proof {
            assert(self.errors@.map_values(|e: SyntaxError| e@) =~= before.map_values(
                |e: SyntaxError| e@,
            ) + seq![(e@.0, e@.1)]);
        }
    }

    /// Freeze the structure into an immutable tree whose text is exactly
    /// the concatenation of the supplied token texts in call order, whose
    /// root carries the kind the outermost node was started with, and
    /// attach the recorded diagnostics, sorted by offset, to the root.
    pub fn finish(self) -> (r: SyntaxTree)
        requires
            self.wf(),
            self.balanced(),
        ensures
            r.text_spec() == self.text_spec(),
            r.root_spec().kind_spec() == code_kind(self.root_kind_spec()),
            errors_sorted(r.errors_spec()),
            r.errors_spec().to_multiset() == self.errors_spec().to_multiset(),
    {
        let SyntaxTreeBuilder { errors, inner, .. } = self;
        let green = rowan_builder_finish(inner);
        let root = SyntaxNode { inner: rowan_new_root(green) };
        let sorted = sort_errors_by_offset(errors);
        SyntaxTree { root, errors: sorted }
    }
}

/// The concatenation of the texts in a token list.
pub open spec fn token_texts(tokens: Seq<(SyntaxKind, String)>) -> Seq<char> {
    texts_concat(tokens.map_values(|t: (SyntaxKind, String)| t.1@))
}

/// Tree round trip: freezing any stack-balanced call sequence gives a tree
/// whose reconstructed text is exactly the concatenation of the supplied
/// token texts in call order. Here the sequence is one root node holding
/// the given tokens; nesting only moves `start_node`/`finish_node` pairs,
/// which the builder's contracts show add no text.
pub fn build_chunk(tokens: &Vec<(SyntaxKind, String)>) -> (r: SyntaxTree)
    requires
        token_texts(tokens@).len() <= u32::MAX / 4,
    ensures
        r.text_spec() == token_texts(tokens@),
        r.root_spec().kind_spec() == SyntaxKind::CHUNK,
        r.errors_spec() == Seq::<(Seq<char>, Location)>::empty(),
{
    let ghost tvs = tokens@.map_values(|t: (SyntaxKind, String)| t.1@);
    let mut builder = SyntaxTreeBuilder::new();
    builder.start_node(SyntaxKind::CHUNK);
    let mut i: usize = 0;
    let n = tokens.len();
    proof {
        assert(tvs.take(0) =~= Seq::<Seq<char>>::empty());
        assert(Seq::<char>::empty() + texts_concat(tvs.take(0)) =~= Seq::<char>::empty());
    }
    while i < n
        invariant
            i <= n == tokens@.len(),
            tvs == tokens@.map_values(|t: (SyntaxKind, String)| t.1@),
            tvs.len() == tokens@.len(),
            builder.wf(),
            builder.depth_spec() == 1,
            builder.roots_spec() == 0,
            builder.top_tokens_spec() == 0,
            builder.open_kinds_spec() == Seq::<u16>::empty().push(kind_code(SyntaxKind::CHUNK)),
            builder.errors_spec() == Seq::<(Seq<char>, Location)>::empty(),
            builder.text_spec() == texts_concat(tvs.take(i as int)),
            texts_concat(tvs).len() <= u32::MAX / 4,
        decreases n - i,
    {
        let (kind, text) = (tokens[i].0, tokens[i].1.as_str());
        proof {
            lemma_texts_concat_take_push(tvs, i as int);
            lemma_texts_concat_split(tvs, i + 1);
        }
        builder.token(kind, text);
        i = i + 1;
    }
    builder.finish_node();
    proof {
        assert(tvs.take(n as int) =~= tvs);
    }
    let ghost no_errors = builder.errors_spec();
    let tree = builder.finish();
    proof {
        no_errors.to_multiset_ensures();
        tree.errors_spec().to_multiset_ensures();
        assert(tree.errors_spec().len() == 0);
        assert(tree.errors_spec() =~= Seq::<(Seq<char>, Location)>::empty());
        crate::syntax_kind::lemma_code_round_trip(SyntaxKind::CHUNK);
    }
    tree
}

/// Order a diagnostic list by the offsets the diagnostics point at,
/// keeping exactly the same diagnostics.
fn sort_errors_by_offset(input: Vec<SyntaxError>) -> (r: Vec<SyntaxError>)
    ensures
        errors_sorted(r@.map_values(|e: SyntaxError| e@)),
        r@.map_values(|e: SyntaxError| e@).to_multiset() == input@.map_values(
            |e: SyntaxError| e@,
        ).to_multiset(),
{
    broadcast use vstd::seq_lib::group_to_multiset_ensures;

    let mut rest = input;
    let mut out: Vec<SyntaxError> = Vec::new();
    let ghost all = input@.map_values(|e: SyntaxError| e@);
    while rest.len() > 0
        invariant
            errors_sorted(out@.map_values(|e: SyntaxError| e@)),
            out@.map_values(|e: SyntaxError| e@).to_multiset().add(
                rest@.map_values(|e: SyntaxError| e@).to_multiset(),
            ) == all.to_multiset(),
            forall|i: int, j: int|
                0 <= i < out@.len() && 0 <= j < rest@.len() ==> (#[trigger] out@[i]@).1.offset_spec()
                    <= (#[trigger] rest@[j]@).1.offset_spec(),
        decreases rest.len(),
    {
        let ghost rest_view = rest@.map_values(|e: SyntaxError| e@);
        let ghost out_view = out@.map_values(|e: SyntaxError| e@);
        // find the diagnostic with the smallest offset among the rest
        let mut min_idx: usize = 0;
        let mut k: usize = 1;
        while k < rest.len()
            invariant
                min_idx < k <= rest@.len(),
                rest_view == rest@.map_values(|e: SyntaxError| e@),
                forall|j: int|
                    0 <= j < k ==> rest_view[min_idx as int].1.offset_spec()
                        <= (#[trigger] rest_view[j]).1.offset_spec(),
            decreases rest.len() - k,
        {
            if rest[k].location().offset() < rest[min_idx].location().offset() {
                min_idx = k;
            }
            k = k + 1;
        }
        let picked = rest.remove(min_idx);
        let ghost picked_view = picked@;
        out.push(picked);
        proof {
            let new_out = out@.map_values(|e: SyntaxError| e@);
            let new_rest = rest@.map_values(|e: SyntaxError| e@);
            out_view.to_multiset_ensures();
            rest_view.to_multiset_ensures();
            assert(new_out =~= out_view.push(picked_view));
            assert(new_rest =~= rest_view.remove(min_idx as int));
            // the picked diagnostic really is in the old rest
            assert(rest_view[min_idx as int] == picked_view);
            assert(rest_view.contains(picked_view));
            assert(rest_view.to_multiset().count(picked_view) > 0);
            // multisets: moving one element keeps the union
            assert(new_out.to_multiset() == out_view.to_multiset().insert(picked_view));
            assert(new_rest.to_multiset() == rest_view.to_multiset().remove(picked_view));
            assert(new_out.to_multiset().add(new_rest.to_multiset()) =~= out_view.to_multiset().add(
                rest_view.to_multiset(),
            ));
            // every element of the new rest already stood in the old rest
            assert forall|j: int| 0 <= j < new_rest.len() implies rest_view.contains(
                #[trigger] new_rest[j],
            ) by {
                if j < min_idx {
                    assert(new_rest[j] == rest_view[j]);
                } else {
                    assert(new_rest[j] == rest_view[j + 1]);
                }
            }
            // the new output stays sorted: the picked offset is below the rest
            assert forall|i: int, j: int|
                0 <= i < j < new_out.len() implies (#[trigger] new_out[i]).1.offset_spec()
                <= (#[trigger] new_out[j]).1.offset_spec() by {
                if j < new_out.len() - 1 {
                    assert(new_out[i] == out_view[i] && new_out[j] == out_view[j]);
                } else {
                    assert(new_out[j] == picked_view);
                    assert(new_out[i] == out@[i]@);
                }
            }
            // and it stays below everything still waiting
            assert forall|i: int, j: int|
                0 <= i < out@.len() && 0 <= j < rest@.len() implies (
            #[trigger] out@[i]@).1.offset_spec() <= (#[trigger] rest@[j]@).1.offset_spec() by {
                assert(rest@[j]@ == new_rest[j]);
                assert(rest_view.contains(new_rest[j]));
                let jj = choose|jj: int| 0 <= jj < rest_view.len() && rest_view[jj] == new_rest[j];
                if i < out@.len() - 1 {
                    assert(out@[i]@ == out_view[i]);
                } else {
                    assert(out@[i]@ == picked_view);
                    assert(picked_view.1.offset_spec() <= rest_view[jj].1.offset_spec());
                }
            }
        }
    }
    proof {
        assert(rest@.map_values(|e: SyntaxError| e@) =~= Seq::<(Seq<char>, Location)>::empty());
        assert(rest@.map_values(|e: SyntaxError| e@).to_multiset() =~= Multiset::<(
            Seq<char>,
            Location,
        )>::empty());
        assert(out@.map_values(|e: SyntaxError| e@).to_multiset() =~= all.to_multiset());
    }
    out
}

} // verus!
