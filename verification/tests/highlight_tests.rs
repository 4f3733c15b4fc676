use termlayer::backend::{AlacrittyBackend, Rect};
use termlayer::highlight::{
    project_line, project_viewport, HighlightEvent, HighlightKind, LineText, Run, Theme,
};
use termlayer::style::{Color, Modifiers, Style};

fn style_nothing() -> Style {
    Style { fg: None, bg: None, modifiers: None, underline: None }
}

fn fg(c: Color) -> Style {
    Style { fg: Some(c), bg: None, modifiers: None, underline: None }
}

fn base_theme() -> Theme {
    Theme {
        base: Style { fg: Some(Color::White), bg: Some(Color::Black), modifiers: None, underline: None },
        entries: vec![
            (1, fg(Color::Red)),
            (2, fg(Color::Green)),
            (3, Style { fg: None, bg: None, modifiers: Some(Modifiers { bold: true, italic: false, reversed: false }), underline: None }),
        ],
    }
}

fn push(offset: usize, scopes: Vec<u32>) -> HighlightEvent {
    HighlightEvent { offset, kind: HighlightKind::Push, scopes }
}

fn refresh(offset: usize, scopes: Vec<u32>) -> HighlightEvent {
    HighlightEvent { offset, kind: HighlightKind::Refresh, scopes }
}

fn texts(runs: &[Run]) -> Vec<Vec<u8>> {
    runs.iter().map(|r| r.text.clone()).collect()
}

fn concat(runs: &[Run]) -> Vec<u8> {
    let mut out = Vec::new();
    for r in runs {
        out.extend_from_slice(&r.text);
    }
    out
}

#[test]
fn no_events_yield_exactly_one_run_in_base_style() {
    let th = base_theme();
    let line = b"hello world".to_vec();
    let runs = project_line(&th, &Vec::new(), &line, 0);
    assert_eq!(runs.len(), 1);
    assert_eq!(runs[0].text, line);
    assert_eq!(runs[0].style, th.base);
}

#[test]
fn runs_tile_the_line_exactly() {
    let th = base_theme();
    let line = b"fn main() {}".to_vec();
    let evs = vec![push(0, vec![1]), push(2, vec![2]), push(7, vec![3]), push(9, vec![1])];
    let runs = project_line(&th, &evs, &line, 0);
    assert_eq!(concat(&runs), line);
    assert_eq!(texts(&runs), vec![b"fn".to_vec(), b" main".to_vec(), b"()".to_vec(), b" {}".to_vec()]);
}

#[test]
fn tiling_holds_for_nonzero_line_start() {
    let th = base_theme();
    let line = b"abcdef".to_vec();
    let evs = vec![push(10, vec![1]), push(13, vec![2]), push(16, vec![3])];
    let runs = project_line(&th, &evs, &line, 10);
    assert_eq!(concat(&runs), line);
    assert_eq!(texts(&runs), vec![b"abc".to_vec(), b"def".to_vec()]);
}

#[test]
fn event_before_line_start_styles_without_emitting() {
    let th = base_theme();
    let line = b"abc".to_vec();
    let evs = vec![push(0, vec![1])];
    let runs = project_line(&th, &evs, &line, 5);
    assert_eq!(runs.len(), 1);
    assert_eq!(runs[0].text, line);
    assert_eq!(runs[0].style.fg, Some(Color::Red));
    assert_eq!(runs[0].style.bg, Some(Color::Black));
}

#[test]
fn event_at_or_past_line_end_is_ignored() {
    let th = base_theme();
    let line = b"abc".to_vec();
    let evs = vec![push(3, vec![1]), push(9, vec![2])];
    let runs = project_line(&th, &evs, &line, 0);
    assert_eq!(runs.len(), 1);
    assert_eq!(runs[0].text, line);
    assert_eq!(runs[0].style, th.base);
}

#[test]
fn empty_line_is_one_empty_run() {
    let th = base_theme();
    let runs = project_line(&th, &Vec::new(), &Vec::new(), 4);
    assert_eq!(runs.len(), 1);
    assert_eq!(runs[0].text, Vec::<u8>::new());
}

#[test]
fn unknown_scope_changes_nothing() {
    let th = base_theme();
    let line = b"ab".to_vec();
    let evs = vec![push(0, vec![99])];
    let runs = project_line(&th, &evs, &line, 0);
    assert_eq!(runs.len(), 1);
    assert_eq!(runs[0].style, th.base);
}

#[test]
fn later_scope_overrides_only_what_it_sets() {
    let th = base_theme();
    let line = b"abcd".to_vec();
    // scope 1 sets the foreground, scope 3 only boldness: both hold at once
    let evs = vec![push(0, vec![1]), push(2, vec![3])];
    let runs = project_line(&th, &evs, &line, 0);
    assert_eq!(runs.len(), 2);
    assert_eq!(runs[0].style.fg, Some(Color::Red));
    assert_eq!(runs[0].style.modifiers, None);
    assert_eq!(runs[1].style.fg, Some(Color::Red));
    assert_eq!(
        runs[1].style.modifiers,
        Some(Modifiers { bold: true, italic: false, reversed: false })
    );
}

#[test]
fn refresh_replaces_the_whole_stack() {
    let th = base_theme();
    let line = b"abcdef".to_vec();
    let evs = vec![push(0, vec![1]), refresh(3, vec![2])];
    let runs = project_line(&th, &evs, &line, 0);
    assert_eq!(runs.len(), 2);
    // before the refresh the pushed scope holds
    assert_eq!(runs[0].style.fg, Some(Color::Red));
    // after the refresh nothing of the earlier push survives
    assert_eq!(runs[1].style.fg, Some(Color::Green));
    assert_eq!(runs[1].style.bg, Some(Color::Black));
}

#[test]
fn run_after_refresh_is_independent_of_earlier_pushes() {
    let th = base_theme();
    let line = b"abcdef".to_vec();
    let with_push = vec![push(0, vec![1]), push(1, vec![3]), refresh(3, vec![2])];
    let without_push = vec![refresh(3, vec![2])];
    let runs_a = project_line(&th, &with_push, &line, 0);
    let runs_b = project_line(&th, &without_push, &line, 0);
    let last_a = runs_a.last().unwrap();
    let last_b = runs_b.last().unwrap();
    assert_eq!(last_a.text, last_b.text);
    assert_eq!(last_a.style, last_b.style);
    assert_eq!(last_a.style.modifiers, None);
}

#[test]
fn refresh_to_empty_scopes_returns_to_base() {
    let th = base_theme();
    let line = b"abcd".to_vec();
    let evs = vec![push(0, vec![1]), refresh(2, Vec::new())];
    let runs = project_line(&th, &evs, &line, 0);
    assert_eq!(runs.len(), 2);
    assert_eq!(runs[1].style, th.base);
}

#[test]
fn viewport_projects_at_most_height_lines() {
    let th = base_theme();
    let lines = vec![
        LineText { start: 0, text: b"one".to_vec() },
        LineText { start: 4, text: b"two".to_vec() },
        LineText { start: 8, text: b"three".to_vec() },
    ];
    let spans = project_viewport(&th, &Vec::new(), &lines, 2);
    assert_eq!(spans.len(), 2);
    assert_eq!(spans[0][0].text, b"one".to_vec());
    assert_eq!(spans[1][0].text, b"two".to_vec());
}

#[test]
fn resize_to_zero_height_yields_zero_line_spans() {
    let th = base_theme();
    let mut backend = AlacrittyBackend::new();
    backend.resize(Rect { x: 0, y: 0, width: 80, height: 0 });
    let lines = vec![
        LineText { start: 0, text: b"one".to_vec() },
        LineText { start: 4, text: b"two".to_vec() },
    ];
    let spans = project_viewport(&th, &Vec::new(), &lines, backend.size().height);
    assert_eq!(spans.len(), 0);
}

#[test]
fn decoded_resize_event_to_zero_height_yields_zero_line_spans() {
    let th = base_theme();
    let mut decoder = termlayer::decode::Decoder::new();
    let events = decoder.advance(b"\x1b[8;0;80t");
    assert_eq!(events, vec![termlayer::decode::Event::Resize(80, 0)]);
    let mut backend = AlacrittyBackend::new();
    if let termlayer::decode::Event::Resize(w, h) = events[0] {
        backend.resize(Rect { x: 0, y: 0, width: w, height: h });
    }
    let lines = vec![LineText { start: 0, text: b"still here".to_vec() }];
    let spans = project_viewport(&th, &Vec::new(), &lines, backend.size().height);
    assert_eq!(spans.len(), 0);
}

#[test]
fn style_patch_is_attribute_wise() {
    let a = fg(Color::Red);
    let b = Style {
        fg: None,
        bg: Some(Color::Blue),
        modifiers: None,
        underline: None,
    };
    let c = a.patch(&b);
    assert_eq!(c.fg, Some(Color::Red));
    assert_eq!(c.bg, Some(Color::Blue));
    let d = style_nothing().patch(&a);
    assert_eq!(d.fg, Some(Color::Red));
}
