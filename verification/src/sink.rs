//! The event sink: a stack-disciplined builder of lossless trees.
//!
//! The sink feeds events to the tree builder of `rowan` and keeps track of
//! the open nodes, so that every event that could not be part of the walk
//! of one tree is refused before it reaches the builder.

use crate::event::Event;
use crate::green::{
    builder_events, builder_finish, builder_finish_node, builder_new, builder_start_node,
    builder_token, is_tree, is_tree_prefix, open_nodes, text_bytes, tree_events, TreeEvent,
};
use crate::kind::SyntaxKind;
use vstd::prelude::*;
use vstd::slice::*;
use vstd::string::*;

verus! {

broadcast use vstd::string::group_string_axioms;

/// Why the sink refused an event, or refused to hand out a tree.
#[derive(Debug, Clone, Copy, PartialEq, Eq, Structural)]
pub enum SinkError {
    /// `FinishNode` while no node is open.
    NothingToClose,
    /// A token outside of every node.
    TokenOutsideNode,
    /// An event after the root node was closed.
    RootAlreadyClosed,
    /// The text of the tree would exceed `u32::MAX` bytes.
    TextTooLong,
    /// The tree was asked for while the root was missing or still open.
    Incomplete,
}

/// Builder of one tree from a sequence of events.
pub struct Sink {
    builder: rowan::GreenNodeBuilder<'static>,
    open: Vec<SyntaxKind>,
    started: bool,
    text_len: u32,
}

/// Whether a tree walk that stands at `events` may go on with `next`, and
/// the reason where it may not.
pub open spec fn refusal(events: Seq<TreeEvent>, next: TreeEvent) -> Option<SinkError> {
    if events.len() > 0 && open_nodes(events) == 0 {
        Some(SinkError::RootAlreadyClosed)
    } else {
        match next {
            TreeEvent::Open { .. } => None,
            TreeEvent::Leaf { text, .. } => {
                if events.len() == 0 {
                    Some(SinkError::TokenOutsideNode)
                } else if text_bytes(events) + vstd::utf8::encode_utf8(text).len() > u32::MAX {
                    Some(SinkError::TextTooLong)
                } else {
                    None
                }
            },
            TreeEvent::Close => {
                if events.len() == 0 {
                    Some(SinkError::NothingToClose)
                } else {
                    None
                }
            },
        }
    }
}

impl Sink {
    /// The events that the sink has accepted, as a tree walk.
    pub closed spec fn events(&self) -> Seq<TreeEvent> {
        builder_events(self.builder)
    }

    /// The accepted events are the beginning of the walk of one tree whose
    /// text fits 32 bits, and the sink's counters agree with them.
    pub closed spec fn wf(&self) -> bool {
        &&& is_tree_prefix(self.events())
        &&& self.open@.len() == open_nodes(self.events())
        &&& self.started == (self.events().len() > 0)
        &&& self.text_len == text_bytes(self.events())
    }

    /// A sink that has accepted nothing yet.
    pub fn new() -> (sink: Sink)
        ensures
            sink.wf(),
            sink.events() == Seq::<TreeEvent>::empty(),
            is_tree_prefix(sink.events()),
    {
        Sink { builder: builder_new(), open: Vec::new(), started: false, text_len: 0 }
    }

    /// Number of nodes that are open.
    pub open spec fn depth(&self) -> int {
        open_nodes(self.events())
    }

    /// Total length in bytes of the text accepted so far.
    pub open spec fn text_len(&self) -> nat {
        text_bytes(self.events())
    }

    /// Feeds one event to the builder.
    ///
    /// The event is accepted exactly if the walk may go on with it (see
    /// [`refusal`]); it is then appended. A refused event changes nothing.
    pub fn process(&mut self, event: Event) -> (r: Result<(), SinkError>)
        requires
            old(self).wf(),
        ensures
            final(self).wf(),
            is_tree_prefix(final(self).events()),
            match refusal(old(self).events(), event@.raw()) {
                None => r is Ok && final(self).events() == old(self).events().push(event@.raw()),
                Some(e) => r == Err::<(), SinkError>(e) && final(self).events() == old(
                    self,
                ).events(),
            },
            final(self).depth() == old(self).depth() + (if r is Err {
                0int
            } else {
                match event {
                    Event::StartNode { .. } => 1int,
                    Event::AddToken { .. } => 0int,
                    Event::FinishNode => -1int,
                }
            }),
            final(self).text_len() == old(self).text_len() + (if r is Err {
                0nat
            } else {
                match event {
                    Event::AddToken { text, .. } => vstd::utf8::encode_utf8(text@).len(),
                    _ => 0nat,
                }
            }),
    {
        let ghost before = self.events();
        if self.started && self.open.len() == 0 {
            return Err(SinkError::RootAlreadyClosed);
        }
        match event {
            Event::StartNode { kind } => {
                builder_start_node(&mut self.builder, kind.to_raw());
                self.open.push(kind);
                self.started = true;
                proof {
                    let after = self.events();
                    assert(after.drop_last() =~= before);
                }
                Ok(())
            },
            Event::AddToken { kind, text } => {
                if !self.started {
                    return Err(SinkError::TokenOutsideNode);
                }
                let len = text.as_str().as_bytes().len();
                if len > (u32::MAX - self.text_len) as usize {
                    return Err(SinkError::TextTooLong);
                }
                builder_token(&mut self.builder, kind.to_raw(), text.as_str());
                self.text_len = self.text_len + len as u32;
                proof {
                    let after = self.events();
                    assert(after.drop_last() =~= before);
                }
                Ok(())
            },
            Event::FinishNode => {
                if !self.started {
                    return Err(SinkError::NothingToClose);
                }
                builder_finish_node(&mut self.builder);
                self.open.pop();
                proof {
                    let after = self.events();
                    assert(after.drop_last() =~= before);
                }
                Ok(())
            },
        }
    }

    /// Hands out the tree, if the accepted events are the walk of one: the
    /// root was opened and has been closed.
    pub fn finish(self) -> (r: Result<rowan::GreenNode, SinkError>)
        requires
            self.wf(),
        ensures
            r is Ok <==> is_tree(self.events()),
            r matches Ok(tree) ==> tree_events(tree) == self.events(),
            r matches Err(e) ==> e == SinkError::Incomplete,
    {
        if self.started && self.open.len() == 0 {
            Ok(builder_finish(self.builder))
        } else {
            Err(SinkError::Incomplete)
        }
    }
}

/// Every beginning of a tree walk is the beginning of a tree walk, with no
/// more text than the whole.
pub proof fn lemma_tree_prefix_closed(events: Seq<TreeEvent>, n: int)
    requires
        is_tree_prefix(events),
        0 <= n <= events.len(),
    ensures
        is_tree_prefix(events.subrange(0, n)),
        text_bytes(events.subrange(0, n)) <= text_bytes(events),
    decreases events.len(),
{
    if n == events.len() {
        assert(events.subrange(0, n) =~= events);
    } else {
        lemma_tree_prefix_closed(events.drop_last(), n);
        assert(events.drop_last().subrange(0, n) =~= events.subrange(0, n));
    }
}

/// A tree walk is accepted event by event.
pub proof fn lemma_tree_prefix_accepted(events: Seq<TreeEvent>, n: int)
    requires
        is_tree_prefix(events),
        text_bytes(events) <= u32::MAX,
        0 <= n < events.len(),
    ensures
        refusal(events.subrange(0, n), events[n]) is None,
{
    lemma_tree_prefix_closed(events, n + 1);
    let upto = events.subrange(0, n + 1);
    assert(upto.drop_last() =~= events.subrange(0, n));
}

} // verus!
