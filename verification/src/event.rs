//! The events from which a syntax tree is assembled.

use crate::green::TreeEvent;
use crate::kind::SyntaxKind;
use vstd::prelude::*;

verus! {

/// One instruction to a tree builder.
#[derive(Debug)]
pub enum Event {
    /// Open a node of the given kind under the innermost open node.
    StartNode { kind: SyntaxKind },
    /// Append a token to the innermost open node.
    AddToken { kind: SyntaxKind, text: String },
    /// Close the innermost open node.
    FinishNode,
}

/// Mathematical value of an [`Event`].
pub enum EventView {
    StartNode { kind: SyntaxKind },
    AddToken { kind: SyntaxKind, text: Seq<char> },
    FinishNode,
}

impl View for Event {
    type V = EventView;

    open spec fn view(&self) -> EventView {
        match *self {
            Event::StartNode { kind } => EventView::StartNode { kind },
            Event::AddToken { kind, text } => EventView::AddToken { kind, text: text@ },
            Event::FinishNode => EventView::FinishNode,
        }
    }
}

impl Clone for Event {
    fn clone(&self) -> (r: Self)
        ensures
            r == *self,
    {
        match self {
            Event::StartNode { kind } => Event::StartNode { kind: *kind },
            Event::AddToken { kind, text } => Event::AddToken { kind: *kind, text: text.clone() },
            Event::FinishNode => Event::FinishNode,
        }
    }
}

impl EventView {
    /// The event as a step of a tree walk, with the kind as its raw tag.
    pub open spec fn raw(self) -> TreeEvent {
        match self {
            EventView::StartNode { kind } => TreeEvent::Open { kind: kind.ordinal() },
            EventView::AddToken { kind, text } => TreeEvent::Leaf { kind: kind.ordinal(), text },
            EventView::FinishNode => TreeEvent::Close,
        }
    }
}

/// The views of a sequence of events.
pub open spec fn events_view(events: Seq<Event>) -> Seq<EventView> {
    Seq::new(events.len(), |i: int| events[i]@)
}

/// A sequence of events as a tree walk.
pub open spec fn raw_events(events: Seq<EventView>) -> Seq<TreeEvent> {
    Seq::new(events.len(), |i: int| events[i].raw())
}

/// Appending an event appends its view.
pub proof fn lemma_events_view_push(events: Seq<Event>, e: Event)
    ensures
        events_view(events.push(e)) == events_view(events).push(e@),
{
}

} // verus!
