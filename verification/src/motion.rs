//! A minimal reference dispatcher for cursor motion, and the cursor shape
//! per edit mode.
//!
//! Interpreting events is otherwise the business of the external command
//! layer; this module covers only what the presentation layer itself needs:
//! the mode picks the cursor shape, and the basic motions keep the cursor
//! inside the document under every input.

use vstd::prelude::*;

use crate::backend::CursorKind;
use crate::decode::{Event, KeyCode};

verus! {

/// The edit modes the layer distinguishes. In the leftward-move mode
/// (`Move`) the letter keys move the cursor; in insert mode only the
/// arrows do.
#[derive(Clone, Copy, Debug, PartialEq, Eq, Structural)]
pub enum EditMode {
    Move,
    Insert,
}

/// The cursor shape for a mode: a block while moving, a bar while
/// inserting.
pub fn cursor_kind_for_mode(mode: EditMode) -> (r: CursorKind)
    ensures
        mode is Move ==> r == CursorKind::Block,
        mode is Insert ==> r == CursorKind::Bar,
{
    match mode {
        EditMode::Move => CursorKind::Block,
        EditMode::Insert => CursorKind::Bar,
    }
}

/// Where the cursor lands after one event, clamped to `[0, doc_len]`: the
/// left motions (`h` in the move mode, the left arrow in either mode) never
/// pass position zero, the right motions never pass the document's end,
/// everything else leaves the cursor in place.
pub open spec fn motion_target(mode: EditMode, pos: usize, doc_len: usize, e: Event) -> int {
    match e {
        Event::Key(k) => {
            if k.modifiers.ctrl || k.modifiers.alt {
                pos as int
            } else if k.code == KeyCode::Left || (k.code == KeyCode::Char('h') && mode is Move) {
                if pos == 0 {
                    0
                } else {
                    pos - 1
                }
            } else if k.code == KeyCode::Right || (k.code == KeyCode::Char('l')
                && mode is Move) {
                if pos < doc_len {
                    pos + 1
                } else {
                    doc_len as int
                }
            } else {
                pos as int
            }
        },
        _ => pos as int,
    }
}

/// Apply one event to the cursor. Total over every event: no input moves
/// the cursor out of the document or raises an error.
pub fn apply_motion(mode: EditMode, pos: usize, doc_len: usize, e: &Event) -> (p: usize)
    requires
        pos <= doc_len,
    ensures
        p as int == motion_target(mode, pos, doc_len, *e),
        p <= doc_len,
{
    match e {
        Event::Key(k) => {
            if k.modifiers.ctrl || k.modifiers.alt {
                pos
            } else if k.code == KeyCode::Left || (k.code == KeyCode::Char('h')
                && matches!(mode, EditMode::Move)) {
                if pos == 0 {
                    0
                } else {
                    pos - 1
                }
            } else if k.code == KeyCode::Right || (k.code == KeyCode::Char('l')
                && matches!(mode, EditMode::Move)) {
                if pos < doc_len {
                    pos + 1
                } else {
                    doc_len
                }
            } else {
                pos
            }
        },
        _ => pos,
    }
}

/// Input `h` in the leftward-move mode at the document start leaves the
/// cursor exactly at position zero, whatever the document's length.
pub proof fn lemma_left_at_start_stays(doc_len: usize, e: Event)
    requires
        e == crate::decode::plain_key(KeyCode::Char('h')),
    ensures
        motion_target(EditMode::Move, 0, doc_len, e) == 0,
{
}

} // verus!
