use termlayer::decode::{Decoder, Event, KeyCode, KeyEvent, KeyModifiers};

fn key(code: KeyCode) -> Event {
    Event::Key(KeyEvent {
        code,
        modifiers: KeyModifiers { ctrl: false, alt: false, shift: false },
    })
}

fn ctrl(code: KeyCode) -> Event {
    Event::Key(KeyEvent {
        code,
        modifiers: KeyModifiers { ctrl: true, alt: false, shift: false },
    })
}

fn alt(code: KeyCode) -> Event {
    Event::Key(KeyEvent {
        code,
        modifiers: KeyModifiers { ctrl: false, alt: true, shift: false },
    })
}

#[test]
fn printable_byte_is_a_character() {
    let mut d = Decoder::new();
    assert_eq!(d.advance(b"h"), vec![key(KeyCode::Char('h'))]);
}

#[test]
fn several_printable_bytes_keep_arrival_order() {
    let mut d = Decoder::new();
    assert_eq!(
        d.advance(b"hi!"),
        vec![key(KeyCode::Char('h')), key(KeyCode::Char('i')), key(KeyCode::Char('!'))]
    );
}

#[test]
fn dedicated_control_bytes() {
    let mut d = Decoder::new();
    assert_eq!(
        d.advance(&[0x0d, 0x09, 0x7f, 0x08]),
        vec![
            key(KeyCode::Enter),
            key(KeyCode::Tab),
            key(KeyCode::Backspace),
            key(KeyCode::Backspace),
        ]
    );
}

#[test]
fn control_range_maps_to_ctrl_chords() {
    let mut d = Decoder::new();
    assert_eq!(d.advance(&[0x03]), vec![ctrl(KeyCode::Char('c'))]);
    assert_eq!(d.advance(&[0x1a]), vec![ctrl(KeyCode::Char('z'))]);
}

#[test]
fn nul_byte_is_dropped() {
    let mut d = Decoder::new();
    assert_eq!(d.advance(&[0x00]), Vec::<Event>::new());
    assert_eq!(d.advance(b"a"), vec![key(KeyCode::Char('a'))]);
}

#[test]
fn arrow_sequences() {
    let mut d = Decoder::new();
    assert_eq!(d.advance(b"\x1b[A"), vec![key(KeyCode::Up)]);
    assert_eq!(d.advance(b"\x1b[B"), vec![key(KeyCode::Down)]);
    assert_eq!(d.advance(b"\x1b[C"), vec![key(KeyCode::Right)]);
    assert_eq!(d.advance(b"\x1b[D"), vec![key(KeyCode::Left)]);
    assert_eq!(d.advance(b"\x1b[H"), vec![key(KeyCode::Home)]);
    assert_eq!(d.advance(b"\x1b[F"), vec![key(KeyCode::End)]);
}

#[test]
fn tilde_sequences() {
    let mut d = Decoder::new();
    assert_eq!(d.advance(b"\x1b[3~"), vec![key(KeyCode::Delete)]);
    assert_eq!(d.advance(b"\x1b[5~"), vec![key(KeyCode::PageUp)]);
    assert_eq!(d.advance(b"\x1b[6~"), vec![key(KeyCode::PageDown)]);
    assert_eq!(d.advance(b"\x1b[2~"), vec![key(KeyCode::Insert)]);
    assert_eq!(d.advance(b"\x1b[15~"), vec![key(KeyCode::F(5))]);
    assert_eq!(d.advance(b"\x1b[17~"), vec![key(KeyCode::F(6))]);
    assert_eq!(d.advance(b"\x1b[24~"), vec![key(KeyCode::F(12))]);
}

#[test]
fn ss3_function_keys() {
    let mut d = Decoder::new();
    assert_eq!(d.advance(b"\x1bOP"), vec![key(KeyCode::F(1))]);
    assert_eq!(d.advance(b"\x1bOS"), vec![key(KeyCode::F(4))]);
}

#[test]
fn size_report_becomes_resize_event() {
    let mut d = Decoder::new();
    assert_eq!(d.advance(b"\x1b[8;24;80t"), vec![Event::Resize(80, 24)]);
}

#[test]
fn size_report_with_wrong_lead_parameter_is_dropped() {
    let mut d = Decoder::new();
    assert_eq!(d.advance(b"\x1b[9;24;80t"), Vec::<Event>::new());
}

#[test]
fn unrecognized_complete_sequence_is_dropped_quietly() {
    let mut d = Decoder::new();
    assert_eq!(d.advance(b"\x1b[1;5H"), Vec::<Event>::new());
    assert_eq!(d.advance(b"x"), vec![key(KeyCode::Char('x'))]);
}

#[test]
fn overlong_parameter_run_is_dropped() {
    let mut d = Decoder::new();
    assert_eq!(d.advance(b"\x1b[123456~"), Vec::<Event>::new());
}

#[test]
fn incomplete_sequence_stays_buffered_across_reads() {
    let mut d = Decoder::new();
    assert_eq!(d.advance(b"\x1b["), Vec::<Event>::new());
    assert_eq!(d.advance(b"A"), vec![key(KeyCode::Up)]);
}

#[test]
fn sequence_split_byte_by_byte() {
    let mut d = Decoder::new();
    assert_eq!(d.advance(b"\x1b"), Vec::<Event>::new());
    assert_eq!(d.advance(b"["), Vec::<Event>::new());
    assert_eq!(d.advance(b"3"), Vec::<Event>::new());
    assert_eq!(d.advance(b"~"), vec![key(KeyCode::Delete)]);
}

#[test]
fn two_byte_utf8_character() {
    let mut d = Decoder::new();
    assert_eq!(d.advance("é".as_bytes()), vec![key(KeyCode::Char('é'))]);
}

#[test]
fn three_byte_utf8_character() {
    let mut d = Decoder::new();
    assert_eq!(d.advance("€".as_bytes()), vec![key(KeyCode::Char('€'))]);
}

#[test]
fn four_byte_utf8_character() {
    let mut d = Decoder::new();
    assert_eq!(d.advance("😀".as_bytes()), vec![key(KeyCode::Char('😀'))]);
}

#[test]
fn utf8_split_across_reads() {
    let mut d = Decoder::new();
    let bytes = "é".as_bytes();
    assert_eq!(d.advance(&bytes[..1]), Vec::<Event>::new());
    assert_eq!(d.advance(&bytes[1..]), vec![key(KeyCode::Char('é'))]);
}

#[test]
fn overlong_utf8_encoding_is_dropped() {
    let mut d = Decoder::new();
    assert_eq!(d.advance(&[0xc0, 0x80]), Vec::<Event>::new());
}

#[test]
fn stray_continuation_byte_is_dropped() {
    let mut d = Decoder::new();
    assert_eq!(d.advance(&[0x80]), Vec::<Event>::new());
    assert_eq!(d.advance(b"a"), vec![key(KeyCode::Char('a'))]);
}

#[test]
fn malformed_utf8_resyncs_on_next_byte() {
    let mut d = Decoder::new();
    assert_eq!(d.advance(&[0xc3, 0x41]), vec![key(KeyCode::Char('A'))]);
}

#[test]
fn surrogate_codepoint_is_dropped() {
    let mut d = Decoder::new();
    assert_eq!(d.advance(&[0xed, 0xa0, 0x80]), Vec::<Event>::new());
}

#[test]
fn alt_chord_from_escape_prefix() {
    let mut d = Decoder::new();
    assert_eq!(d.advance(b"\x1bf"), vec![alt(KeyCode::Char('f'))]);
}

#[test]
fn escape_before_escape_stands_alone() {
    let mut d = Decoder::new();
    assert_eq!(d.advance(&[0x1b, 0x1b]), vec![key(KeyCode::Esc)]);
    assert_eq!(d.advance(b"[A"), vec![key(KeyCode::Up)]);
}

#[test]
fn aborted_sequence_drops_prefix_and_resumes() {
    let mut d = Decoder::new();
    assert_eq!(d.advance(b"\x1b[1\x01"), vec![ctrl(KeyCode::Char('a'))]);
}
