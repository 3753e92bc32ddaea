//! What the engine reacts to: X events and control messages, and the queue
//! that brings both to the main loop.

use std::collections::VecDeque;
use vstd::prelude::*;
use crate::proto::Sequence;

verus! {

/// A pointer button.
#[derive(Debug, Clone, Copy, PartialEq, Eq, Structural)]
pub enum Button {
    Button1,
    Button2,
    Button3,
    Button4,
    Button5,
}

/// Whether a button went down or up.
#[derive(Debug, Clone, Copy, PartialEq, Eq, Structural)]
pub enum EventKind {
    Press,
    Release,
}

/// An X event, with what the engine reads of it.
#[derive(Debug, Clone, Copy, PartialEq, Eq, Structural)]
pub enum Event {
    /// A window asks to be shown.
    MapRequest { window: u32 },
    /// A window was hidden.
    UnmapNotify { window: u32 },
    /// The pointer entered a window.
    EnterNotify { window: u32 },
    /// A window got the input focus.
    FocusIn { window: u32 },
    /// A grabbed button went down or up over `subwindow` while the pointer
    /// was at `(root_x, root_y)` on the root window.
    ButtonEvent { kind: EventKind, root_x: u16, root_y: u16, subwindow: u32, button: Button },
    /// The pointer moved to `(root_x, root_y)` on the root window.
    MotionNotify { root_x: u16, root_y: u16 },
    /// A window asks for a new geometry or stacking.
    ConfigureRequest { window: u32 },
    /// Any other event.
    Other,
}

/// One entry of the event queue.
#[derive(Debug, Clone, Copy, PartialEq, Eq, Structural)]
pub enum EventType {
    XEvent(Event),
    Config(Sequence),
}

/// The queue between the producers of events and the main loop. What was
/// put in last comes out first.
pub struct EventQueue {
    events: VecDeque<EventType>,
}

impl View for EventQueue {
    type V = Seq<EventType>;

    closed spec fn view(&self) -> Seq<EventType> {
        self.events@
    }
}

impl EventQueue {
    /// An empty queue.
    pub fn new() -> (queue: EventQueue)
        ensures
            queue@ == Seq::<EventType>::empty(),
    {
        EventQueue { events: VecDeque::new() }
    }

    /// Number of waiting events.
    pub fn len(&self) -> (len: usize)
        ensures
            len == self@.len(),
    {
        self.events.len()
    }

    /// Whether no event waits.
    pub fn is_empty(&self) -> (empty: bool)
        ensures
            empty == (self@.len() == 0),
    {
        self.events.len() == 0
    }

    /// Puts one event at the back.
    pub fn push(&mut self, event: EventType)
        ensures
            final(self)@ == old(self)@.push(event),
    {
        self.events.push_back(event);
    }

    /// Puts a batch of events at the back, in their order.
    pub fn extend(&mut self, events: Vec<EventType>)
        ensures
            final(self)@ == old(self)@ + events@,
    {
        let mut i: usize = 0;
        while i < events.len()
            invariant
                i <= events@.len(),
                self@ == old(self)@ + events@.subrange(0, i as int),
            decreases events@.len() - i,
        {
            self.events.push_back(events[i]);
            i += 1;
            assert(self@ =~= old(self)@ + events@.subrange(0, i as int));
        }
        assert(events@.subrange(0, events@.len() as int) =~= events@);
    }

    /// Takes the event at the back, the one that was put in last. The caller
    /// waits until the queue holds an event.
    pub fn wait(&mut self) -> (event: EventType)
        requires
            old(self)@.len() > 0,
        ensures
            event == old(self)@.last(),
            final(self)@ == old(self)@.drop_last(),
    {
        let event = self.events.pop_back();
        event.unwrap()
    }
}

} // verus!
