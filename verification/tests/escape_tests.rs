use termlayer::decode::{Event, KeyCode, KeyEvent, KeyModifiers};
use termlayer::escape::Disambiguator;

fn key(code: KeyCode) -> Event {
    Event::Key(KeyEvent {
        code,
        modifiers: KeyModifiers { ctrl: false, alt: false, shift: false },
    })
}

#[test]
fn lone_escape_arms_timer_and_emits_nothing() {
    let mut dis = Disambiguator::new();
    let (events, arm) = dis.on_bytes(&[0x1b]);
    assert!(arm);
    assert_eq!(events, Vec::<Event>::new());
}

#[test]
fn timeout_after_lone_escape_yields_exactly_one_escape() {
    let mut dis = Disambiguator::new();
    let (events, arm) = dis.on_bytes(&[0x1b]);
    assert!(arm);
    assert!(events.is_empty());
    let fired = dis.on_timeout();
    assert_eq!(fired, vec![key(KeyCode::Esc)]);
    let fired_again = dis.on_timeout();
    assert_eq!(fired_again, Vec::<Event>::new());
}

#[test]
fn bytes_before_timeout_yield_the_sequence_and_no_escape() {
    let mut dis = Disambiguator::new();
    let (events, arm) = dis.on_bytes(&[0x1b]);
    assert!(arm);
    assert!(events.is_empty());
    let (events, arm) = dis.on_bytes(b"[A");
    assert!(!arm);
    assert_eq!(events, vec![key(KeyCode::Up)]);
    let stale = dis.on_timeout();
    assert_eq!(stale, Vec::<Event>::new());
}

#[test]
fn chunk_with_escape_and_more_bytes_skips_disambiguation() {
    let mut dis = Disambiguator::new();
    let (events, arm) = dis.on_bytes(b"\x1b[A");
    assert!(!arm);
    assert_eq!(events, vec![key(KeyCode::Up)]);
}

#[test]
fn escape_then_printable_makes_an_alt_chord() {
    let mut dis = Disambiguator::new();
    let (events, arm) = dis.on_bytes(&[0x1b]);
    assert!(arm);
    assert!(events.is_empty());
    let (events, arm) = dis.on_bytes(b"w");
    assert!(!arm);
    assert_eq!(
        events,
        vec![Event::Key(KeyEvent {
            code: KeyCode::Char('w'),
            modifiers: KeyModifiers { ctrl: false, alt: true, shift: false },
        })]
    );
}

#[test]
fn window_delays_but_never_reorders() {
    let mut dis = Disambiguator::new();
    let (events, arm) = dis.on_bytes(&[0x1b]);
    assert!(arm);
    assert!(events.is_empty());
    let (events, arm) = dis.on_bytes(b"[Ax");
    assert!(!arm);
    assert_eq!(events, vec![key(KeyCode::Up), key(KeyCode::Char('x'))]);
}

#[test]
fn stale_timeout_with_nothing_pending_is_silent() {
    let mut dis = Disambiguator::new();
    let fired = dis.on_timeout();
    assert_eq!(fired, Vec::<Event>::new());
}

#[test]
fn escape_while_bytes_are_buffered_does_not_arm() {
    let mut dis = Disambiguator::new();
    let (events, arm) = dis.on_bytes(b"\x1b[");
    assert!(!arm);
    assert!(events.is_empty());
    // the buffered bracket makes this escape byte part of the stream,
    // not a candidate for the disambiguation window
    let (events, arm) = dis.on_bytes(&[0x1b]);
    assert!(!arm);
    assert!(events.is_empty());
}

#[test]
fn incomplete_sequence_finishes_on_the_next_chunk() {
    let mut dis = Disambiguator::new();
    let (events, arm) = dis.on_bytes(b"\x1b[");
    assert!(!arm);
    assert!(events.is_empty());
    let (events, arm) = dis.on_bytes(b"A");
    assert!(!arm);
    assert_eq!(events, vec![key(KeyCode::Up)]);
}
