use vstd::prelude::*;

verus! {

/// The process signals that the resize loop listens to.
#[derive(Debug, Clone, Copy, PartialEq, Eq, Structural)]
pub enum LoopSignal {
    /// The terminal window changed size.
    WindowChange,
    Interrupt,
    Terminate,
    HangUp,
    Quit,
    /// Stop from the terminal.
    TerminalStop,
    Continue,
    /// Any other signal.
    Other,
}

/// What the resize loop tells the rest of the application.
#[derive(Debug, Clone, Copy, PartialEq, Eq, Structural)]
pub enum LoopMessage {
    Resize,
    Terminate,
    Pause,
    Start,
}

/// The message a signal causes, if any, and whether the loop keeps
/// listening: a window change asks for a resize, a stop for a pause, a
/// continue for a start; an interrupt, termination, hang-up or quit asks the
/// application to terminate and ends the loop.
pub fn on_signal(signal: LoopSignal) -> (r: (Option<LoopMessage>, bool))
    ensures
        r == (match signal {
            LoopSignal::WindowChange => (Some(LoopMessage::Resize), true),
            LoopSignal::Interrupt | LoopSignal::Terminate | LoopSignal::HangUp | LoopSignal::Quit => (
                Some(LoopMessage::Terminate),
                false,
            ),
            LoopSignal::TerminalStop => (Some(LoopMessage::Pause), true),
            LoopSignal::Continue => (Some(LoopMessage::Start), true),
            LoopSignal::Other => (None, true),
        }),
{
    match signal {
        LoopSignal::WindowChange => (Some(LoopMessage::Resize), true),
        LoopSignal::Interrupt | LoopSignal::Terminate | LoopSignal::HangUp | LoopSignal::Quit => (
            Some(LoopMessage::Terminate),
            false,
        ),
        LoopSignal::TerminalStop => (Some(LoopMessage::Pause), true),
        LoopSignal::Continue => (Some(LoopMessage::Start), true),
        LoopSignal::Other => (None, true),
    }
}

} // verus!
