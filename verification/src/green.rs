//! The green tree of the `rowan` crate, as far as this library uses it.
//!
//! Trees are built by `rowan::GreenNodeBuilder` and come out as
//! `rowan::GreenNode`. Both are opaque here. What a builder has been fed so
//! far and what a finished tree holds are named as sequences of
//! [`TreeEvent`]s; the contracts of the calls below are stated over those
//! names and are taken on trust from the crate's source.

use vstd::prelude::*;
use vstd::utf8::encode_utf8;

verus! {

/// The tree type of `rowan`: an immutable node with its subtree.
#[verifier::external_type_specification]
#[verifier::external_body]
pub struct ExGreenNode(rowan::GreenNode);

/// The tree builder of `rowan`.
#[verifier::external_type_specification]
#[verifier::external_body]
pub struct ExGreenNodeBuilder<'cache>(rowan::GreenNodeBuilder<'cache>);

/// One step of a walk through a tree in document order, with raw kind tags.
pub enum TreeEvent {
    /// A node begins.
    Open { kind: u16 },
    /// A token, with its text.
    Leaf { kind: u16, text: Seq<char> },
    /// The innermost open node ends.
    Close,
}

/// The calls that a builder has received since it was made, in order:
/// `start_node` as `Open`, `token` as `Leaf`, `finish_node` as `Close`.
pub uninterp spec fn builder_events(builder: rowan::GreenNodeBuilder<'static>) -> Seq<TreeEvent>;

/// The walk through a finished tree in document order: `Open` on entering a
/// node, `Leaf` for a token, `Close` on leaving a node.
pub uninterp spec fn tree_events(tree: rowan::GreenNode) -> Seq<TreeEvent>;

/// Number of nodes that are open after the events: opened and not closed.
pub open spec fn open_nodes(events: Seq<TreeEvent>) -> int
    decreases events.len(),
{
    if events.len() == 0 {
        0
    } else {
        match events.last() {
            TreeEvent::Open { .. } => open_nodes(events.drop_last()) + 1,
            TreeEvent::Leaf { .. } => open_nodes(events.drop_last()),
            TreeEvent::Close => open_nodes(events.drop_last()) - 1,
        }
    }
}

/// The events can be continued to the walk of one tree: the first event
/// opens the root, and every later event happens while the root is open.
pub open spec fn is_tree_prefix(events: Seq<TreeEvent>) -> bool
    decreases events.len(),
{
    if events.len() == 0 {
        true
    } else {
        let before = events.drop_last();
        &&& is_tree_prefix(before)
        &&& if before.len() == 0 {
            events.last() is Open
        } else {
            open_nodes(before) >= 1
        }
    }
}

/// The events are the walk of one tree: a prefix of a walk in which the
/// root has been closed.
pub open spec fn is_tree(events: Seq<TreeEvent>) -> bool {
    is_tree_prefix(events) && events.len() > 0 && open_nodes(events) == 0
}

/// Total length in bytes of the token texts among the events.
pub open spec fn text_bytes(events: Seq<TreeEvent>) -> nat
    decreases events.len(),
{
    if events.len() == 0 {
        0
    } else {
        match events.last() {
            TreeEvent::Leaf { text, .. } => text_bytes(events.drop_last()) + encode_utf8(
                text,
            ).len(),
            _ => text_bytes(events.drop_last()),
        }
    }
}

/// The token texts among the events, concatenated in order.
pub open spec fn text_of(events: Seq<TreeEvent>) -> Seq<char>
    decreases events.len(),
{
    if events.len() == 0 {
        Seq::empty()
    } else {
        match events.last() {
            TreeEvent::Leaf { text, .. } => text_of(events.drop_last()) + text,
            _ => text_of(events.drop_last()),
        }
    }
}

/// The tokens among the events, in order.
pub open spec fn leaves(events: Seq<TreeEvent>) -> Seq<TreeEvent>
    decreases events.len(),
{
    if events.len() == 0 {
        Seq::empty()
    } else {
        match events.last() {
            TreeEvent::Leaf { .. } => leaves(events.drop_last()).push(events.last()),
            _ => leaves(events.drop_last()),
        }
    }
}

/// The text of a walk is the text of its tokens.
pub proof fn lemma_text_of_leaves(events: Seq<TreeEvent>)
    ensures
        text_of(leaves(events)) == text_of(events),
        text_bytes(leaves(events)) == text_bytes(events),
    decreases events.len(),
{
    if events.len() > 0 {
        lemma_text_of_leaves(events.drop_last());
        match events.last() {
            TreeEvent::Leaf { .. } => {
                let l = leaves(events);
                assert(l.drop_last() =~= leaves(events.drop_last()));
            },
            _ => {},
        }
    }
}

/// `GreenNodeBuilder::new`: a builder that has received no call yet.
#[verifier::external_body]
pub(crate) fn builder_new() -> (builder: rowan::GreenNodeBuilder<'static>)
    ensures
        builder_events(builder) == Seq::<TreeEvent>::empty(),
{
    rowan::GreenNodeBuilder::new()
}

/// `GreenNodeBuilder::start_node`: opens a node of the given raw kind under
/// the innermost open node.
#[verifier::external_body]
pub(crate) fn builder_start_node(builder: &mut rowan::GreenNodeBuilder<'static>, kind: u16)
    ensures
        builder_events(*final(builder)) == builder_events(*old(builder)).push(
            TreeEvent::Open { kind },
        ),
{
    builder.start_node(rowan::SyntaxKind(kind))
}

/// `GreenNodeBuilder::token`: appends a token of the given raw kind and text
/// to the innermost open node.
#[verifier::external_body]
pub(crate) fn builder_token(builder: &mut rowan::GreenNodeBuilder<'static>, kind: u16, text: &str)
    ensures
        builder_events(*final(builder)) == builder_events(*old(builder)).push(
            TreeEvent::Leaf { kind, text: text@ },
        ),
{
    builder.token(rowan::SyntaxKind(kind), text)
}

/// `GreenNodeBuilder::finish_node`: closes the innermost open node. The call
/// panics where no node is open, and where the text under the node does not
/// fit the crate's 32-bit text size; both are ruled out here, the second by
/// bounding all text that the builder has received.
#[verifier::external_body]
pub(crate) fn builder_finish_node(builder: &mut rowan::GreenNodeBuilder<'static>)
    requires
        open_nodes(builder_events(*old(builder))) >= 1,
        text_bytes(builder_events(*old(builder))) <= u32::MAX,
    ensures
        builder_events(*final(builder)) == builder_events(*old(builder)).push(TreeEvent::Close),
{
    builder.finish_node()
}

/// `GreenNodeBuilder::finish`: hands out the tree that was built. The call
/// panics unless exactly one element was built at the top and it is a node;
/// here the calls received must be the walk of one tree, and the result is
/// the tree with that walk.
#[verifier::external_body]
pub(crate) fn builder_finish(builder: rowan::GreenNodeBuilder<'static>) -> (tree: rowan::GreenNode)
    requires
        is_tree(builder_events(builder)),
    ensures
        tree_events(tree) == builder_events(builder),
{
    builder.finish()
}

} // verus!
