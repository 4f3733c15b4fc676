use termlayer::decode::{Event, KeyCode, KeyEvent, KeyModifiers};
use termlayer::event_loop::{EditorEvent, EventLoop, ReadySet, Source, Wakeup};
use termlayer::event_loop::select_source;

fn ready(
    escape_timer: bool,
    input: bool,
    immediate_queue: bool,
    wait_queue: bool,
    editor_event: bool,
) -> ReadySet {
    ReadySet { escape_timer, input, immediate_queue, wait_queue, editor_event }
}

fn esc() -> Event {
    Event::Key(KeyEvent {
        code: KeyCode::Esc,
        modifiers: KeyModifiers { ctrl: false, alt: false, shift: false },
    })
}

#[test]
fn nothing_ready_selects_nothing() {
    assert_eq!(select_source(&ready(false, false, false, false, false)), None);
}

#[test]
fn escape_timer_beats_new_input_bytes() {
    assert_eq!(
        select_source(&ready(true, true, false, false, false)),
        Some(Source::EscapeTimer)
    );
}

#[test]
fn escape_timer_beats_everything() {
    assert_eq!(select_source(&ready(true, true, true, true, true)), Some(Source::EscapeTimer));
}

#[test]
fn input_beats_the_queues_and_editor_events() {
    assert_eq!(select_source(&ready(false, true, true, true, true)), Some(Source::Input));
}

#[test]
fn immediate_queue_beats_wait_queue_and_editor_events() {
    assert_eq!(
        select_source(&ready(false, false, true, true, true)),
        Some(Source::ImmediateQueue)
    );
}

#[test]
fn wait_queue_beats_editor_events() {
    assert_eq!(select_source(&ready(false, false, false, true, true)), Some(Source::WaitQueue));
}

#[test]
fn editor_event_comes_last() {
    assert_eq!(
        select_source(&ready(false, false, false, false, true)),
        Some(Source::EditorEvent)
    );
}

#[test]
fn lone_escape_chunk_arms_timer_and_skips_render() {
    let mut lp = EventLoop::new();
    let plan = lp.step(Wakeup::Input(vec![0x1b]));
    assert!(plan.arm_escape_timer);
    assert!(plan.events.is_empty());
    assert!(!plan.render);
    assert!(!plan.drain_immediate);
    assert!(!plan.exit);
}

#[test]
fn timer_firing_yields_the_escape_and_renders() {
    let mut lp = EventLoop::new();
    let plan = lp.step(Wakeup::Input(vec![0x1b]));
    assert!(plan.arm_escape_timer);
    let plan = lp.step(Wakeup::EscapeTimer);
    assert_eq!(plan.events, vec![esc()]);
    assert!(plan.render);
    assert!(plan.drain_immediate);
    assert!(!plan.exit);
}

#[test]
fn stale_timer_firing_changes_nothing_visible() {
    let mut lp = EventLoop::new();
    let plan = lp.step(Wakeup::EscapeTimer);
    assert!(plan.events.is_empty());
    assert!(!plan.render);
}

#[test]
fn input_chunk_renders_even_without_complete_events() {
    let mut lp = EventLoop::new();
    let plan = lp.step(Wakeup::Input(b"\x1b[".to_vec()));
    assert!(!plan.arm_escape_timer);
    assert!(plan.events.is_empty());
    assert!(plan.render);
}

#[test]
fn ordinary_input_dispatches_then_renders() {
    let mut lp = EventLoop::new();
    let plan = lp.step(Wakeup::Input(b"x".to_vec()));
    assert_eq!(
        plan.events,
        vec![Event::Key(KeyEvent {
            code: KeyCode::Char('x'),
            modifiers: KeyModifiers { ctrl: false, alt: false, shift: false },
        })]
    );
    assert!(plan.render);
    assert!(plan.drain_immediate);
}

#[test]
fn closed_input_stream_ends_the_loop() {
    let mut lp = EventLoop::new();
    let plan = lp.step(Wakeup::InputClosed);
    assert!(plan.exit);
    assert!(!plan.render);
    assert!(plan.events.is_empty());
}

#[test]
fn completion_items_only_render() {
    let mut lp = EventLoop::new();
    let plan = lp.step(Wakeup::ImmediateJob);
    assert!(plan.render && plan.drain_immediate && !plan.exit);
    let plan = lp.step(Wakeup::WaitJob);
    assert!(plan.render && plan.drain_immediate && !plan.exit);
}

#[test]
fn editor_events_render_and_mark_their_handlers() {
    let mut lp = EventLoop::new();
    let plan = lp.step(Wakeup::Editor(EditorEvent::Redraw));
    assert!(plan.render && !plan.forward_idle && !plan.handle_server_message);
    let plan = lp.step(Wakeup::Editor(EditorEvent::DocumentSaved));
    assert!(plan.render && !plan.forward_idle && !plan.handle_server_message);
    let plan = lp.step(Wakeup::Editor(EditorEvent::IdleTimer));
    assert!(plan.render && plan.forward_idle && !plan.handle_server_message);
    let plan = lp.step(Wakeup::Editor(EditorEvent::ServerMessage));
    assert!(plan.render && !plan.forward_idle && plan.handle_server_message);
}

#[test]
fn priority_scenario_timer_first_then_bytes() {
    // both the timer and new bytes are ready: the documented order serves
    // the timer first, so the standalone escape precedes the new keys
    let mut lp = EventLoop::new();
    let plan = lp.step(Wakeup::Input(vec![0x1b]));
    assert!(plan.arm_escape_timer);
    let r = ready(true, true, false, false, false);
    assert_eq!(select_source(&r), Some(Source::EscapeTimer));
    let first = lp.step(Wakeup::EscapeTimer);
    assert_eq!(first.events, vec![esc()]);
    let second = lp.step(Wakeup::Input(b"q".to_vec()));
    assert_eq!(
        second.events,
        vec![Event::Key(KeyEvent {
            code: KeyCode::Char('q'),
            modifiers: KeyModifiers { ctrl: false, alt: false, shift: false },
        })]
    );
}
