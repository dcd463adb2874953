use boxmux::signals::{on_signal, LoopMessage, LoopSignal};

#[test]
fn window_change_asks_for_resize() {
    assert_eq!(on_signal(LoopSignal::WindowChange), (Some(LoopMessage::Resize), true));
}

#[test]
fn stopping_signals_end_the_loop() {
    for s in [LoopSignal::Interrupt, LoopSignal::Terminate, LoopSignal::HangUp, LoopSignal::Quit] {
        assert_eq!(on_signal(s), (Some(LoopMessage::Terminate), false));
    }
}

#[test]
fn pause_and_continue() {
    assert_eq!(on_signal(LoopSignal::TerminalStop), (Some(LoopMessage::Pause), true));
    assert_eq!(on_signal(LoopSignal::Continue), (Some(LoopMessage::Start), true));
    assert_eq!(on_signal(LoopSignal::Other), (None, true));
}
