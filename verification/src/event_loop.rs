//! The event loop's decisions: which ready source is served first, and what
//! one unit of work means for each kind of wakeup.
//!
//! The loop itself — waiting on the sources, running commands, painting —
//! belongs to the caller; this module fixes the order and the plan. Every
//! iteration serves the highest-priority ready source: the escape timer
//! first, then new input bytes, then the immediate completion queue, then
//! the must-finish-before-exit queue, then an editor-driven event. After
//! the dispatched work, the immediate queue is drained synchronously and one
//! render follows. A closed input stream ends the loop; a closed completion
//! queue only means no further items of that kind.

use vstd::prelude::*;

use crate::decode::Event;
use crate::escape::{
    arms_timer, buffered_after, bytes_events, pending_after, timeout_events, Disambiguator,
};

verus! {

/// Which sources are ready to be served.
#[derive(Clone, Copy, Debug, PartialEq, Eq, Structural)]
pub struct ReadySet {
    pub escape_timer: bool,
    pub input: bool,
    pub immediate_queue: bool,
    pub wait_queue: bool,
    pub editor_event: bool,
}

/// One source the loop waits on.
#[derive(Clone, Copy, Debug, PartialEq, Eq, Structural)]
pub enum Source {
    EscapeTimer,
    Input,
    ImmediateQueue,
    WaitQueue,
    EditorEvent,
}

/// The source served when the given sources are ready: the first ready one
/// in the fixed priority order.
pub open spec fn spec_select(r: ReadySet) -> Option<Source> {
    if r.escape_timer {
        Some(Source::EscapeTimer)
    } else if r.input {
        Some(Source::Input)
    } else if r.immediate_queue {
        Some(Source::ImmediateQueue)
    } else if r.wait_queue {
        Some(Source::WaitQueue)
    } else if r.editor_event {
        Some(Source::EditorEvent)
    } else {
        None
    }
}

/// Pick the source to serve. Exactly the highest-priority ready source is
/// chosen; with nothing ready there is nothing to serve.
pub fn select_source(r: &ReadySet) -> (s: Option<Source>)
    ensures
        s == spec_select(*r),
{
    if r.escape_timer {
        Some(Source::EscapeTimer)
    } else if r.input {
        Some(Source::Input)
    } else if r.immediate_queue {
        Some(Source::ImmediateQueue)
    } else if r.wait_queue {
        Some(Source::WaitQueue)
    } else if r.editor_event {
        Some(Source::EditorEvent)
    } else {
        None
    }
}

/// When the escape timer and any other source — new input bytes included —
/// are ready at once, the timer is served first.
pub proof fn lemma_escape_timer_served_first(r: ReadySet)
    requires
        r.escape_timer,
    ensures
        spec_select(r) == Some(Source::EscapeTimer),
{
}

/// An editor-driven event: a finished save, a redraw request, the idle
/// timer, or an inbound message from the external server-like collaborator.
#[derive(Clone, Copy, Debug, PartialEq, Eq, Structural)]
pub enum EditorEvent {
    ServerMessage,
    DocumentSaved,
    Redraw,
    IdleTimer,
}

/// One wakeup of the loop: which source fired, with its payload.
#[derive(Clone, Debug)]
pub enum Wakeup {
    EscapeTimer,
    Input(Vec<u8>),
    InputClosed,
    ImmediateJob,
    WaitJob,
    Editor(EditorEvent),
}

/// What the caller must do for one wakeup, in this order: dispatch the
/// decoded events, arm the escape timer if asked, forward the idle timeout,
/// hand the server message to its handler, then — whenever a render is due —
/// drain the immediate completion queue and paint once.
#[derive(Clone, Debug)]
pub struct StepPlan {
    pub events: Vec<Event>,
    pub arm_escape_timer: bool,
    pub forward_idle: bool,
    pub handle_server_message: bool,
    pub drain_immediate: bool,
    pub render: bool,
    pub exit: bool,
}

/// The decision state of the loop: the escape disambiguator it owns. The
/// editor, the queues and the timer itself live with the caller.
pub struct EventLoop {
    dis: Disambiguator,
}

impl EventLoop {
    /// Whether an escape byte is held back (the escape timer is armed).
    pub closed spec fn is_pending(&self) -> bool {
        self.dis.is_pending()
    }

    /// The input bytes buffered across reads.
    pub closed spec fn buffered(&self) -> Seq<u8> {
        self.dis.buffered()
    }

    /// The loop's invariant: the disambiguator's own.
    pub closed spec fn wf(&self) -> bool {
        self.dis.wf()
    }

    /// A fresh loop: idle, nothing buffered, timer unarmed.
    pub fn new() -> (r: EventLoop)
        ensures
            r.wf(),
            !r.is_pending(),
            r.buffered() == Seq::<u8>::empty(),
    {
        EventLoop { dis: Disambiguator::new() }
    }

    /// Decide one unit of work. Input bytes run through the escape
    /// disambiguator and the decoder; the timer firing yields the held
    /// escape, if any; completion items and editor events only ask for a
    /// render, with the idle timeout and the server message marked for
    /// their handlers; a closed input stream ends the loop. A render always
    /// drains the immediate queue first.
    pub fn step(&mut self, w: Wakeup) -> (p: StepPlan)
        requires
            old(self).wf(),
        ensures
            final(self).wf(),
            p.drain_immediate == p.render,
            w matches Wakeup::EscapeTimer ==> {
                &&& p.events@ == timeout_events(old(self).is_pending())
                &&& !p.arm_escape_timer
                &&& p.render == old(self).is_pending()
                &&& !p.forward_idle
                &&& !p.handle_server_message
                &&& !p.exit
                &&& !final(self).is_pending()
                &&& final(self).buffered() == old(self).buffered()
            },
            w matches Wakeup::Input(bytes) ==> {
                &&& p.events@ == bytes_events(old(self).is_pending(), old(self).buffered(), bytes@)
                &&& p.arm_escape_timer == arms_timer(
                    old(self).is_pending(),
                    old(self).buffered(),
                    bytes@,
                )
                &&& p.render == !p.arm_escape_timer
                &&& !p.forward_idle
                &&& !p.handle_server_message
                &&& !p.exit
                &&& final(self).is_pending() == pending_after(
                    old(self).is_pending(),
                    old(self).buffered(),
                    bytes@,
                )
                &&& final(self).buffered() == buffered_after(
                    old(self).is_pending(),
                    old(self).buffered(),
                    bytes@,
                )
            },
            w matches Wakeup::InputClosed ==> {
                &&& p.exit
                &&& p.events@ == Seq::<Event>::empty()
                &&& !p.arm_escape_timer
                &&& !p.render
                &&& !p.forward_idle
                &&& !p.handle_server_message
                &&& *final(self) == *old(self)
            },
            (w matches Wakeup::ImmediateJob || w matches Wakeup::WaitJob) ==> {
                &&& p.render
                &&& p.events@ == Seq::<Event>::empty()
                &&& !p.arm_escape_timer
                &&& !p.forward_idle
                &&& !p.handle_server_message
                &&& !p.exit
                &&& *final(self) == *old(self)
            },
            w matches Wakeup::Editor(ev) ==> {
                &&& p.render
                &&& p.events@ == Seq::<Event>::empty()
                &&& !p.arm_escape_timer
                &&& p.forward_idle == (ev is IdleTimer)
                &&& p.handle_server_message == (ev is ServerMessage)
                &&& !p.exit
                &&& *final(self) == *old(self)
            },
    {
        match w {
            Wakeup::EscapeTimer => {
                let was_pending = self.dis.armed();
                let events = self.dis.on_timeout();
                StepPlan {
                    events,
                    arm_escape_timer: false,
                    forward_idle: false,
                    handle_server_message: false,
                    drain_immediate: was_pending,
                    render: was_pending,
                    exit: false,
                }
            },
            Wakeup::Input(bytes) => {
                let (events, arm) = self.dis.on_bytes(bytes.as_slice());
                StepPlan {
                    events,
                    arm_escape_timer: arm,
                    forward_idle: false,
                    handle_server_message: false,
                    drain_immediate: !arm,
                    render: !arm,
                    exit: false,
                }
            },
            Wakeup::InputClosed => StepPlan {
                events: Vec::new(),
                arm_escape_timer: false,
                forward_idle: false,
                handle_server_message: false,
                drain_immediate: false,
                render: false,
                exit: true,
            },
            Wakeup::ImmediateJob => StepPlan {
                events: Vec::new(),
                arm_escape_timer: false,
                forward_idle: false,
                handle_server_message: false,
                drain_immediate: true,
                render: true,
                exit: false,
            },
            Wakeup::WaitJob => StepPlan {
                events: Vec::new(),
                arm_escape_timer: false,
                forward_idle: false,
                handle_server_message: false,
                drain_immediate: true,
                render: true,
                exit: false,
            },
            Wakeup::Editor(ev) => StepPlan {
                events: Vec::new(),
                arm_escape_timer: false,
                forward_idle: matches!(ev, EditorEvent::IdleTimer),
                handle_server_message: matches!(ev, EditorEvent::ServerMessage),
                drain_immediate: true,
                render: true,
                exit: false,
            },
        }
    }
}

} // verus!
