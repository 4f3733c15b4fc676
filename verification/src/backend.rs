//! The terminal output backend: owns the pending output bytes and the
//! last-known size, and sequences cell-encoder calls into a frame.
//!
//! The backend never touches the output stream itself: it builds the exact
//! control bytes, and `flush` hands them to the caller, who writes them out
//! and deals with write failures. `size` returns the last pushed size and
//! never queries the terminal live; callers must push resize events
//! explicitly through `resize`.

use vstd::prelude::*;

use crate::encode::{cell_bytes, csi, encode_cell};
use crate::style::Cell;

verus! {

/// A rectangle of the screen, given by its top-left corner and its size.
#[derive(Clone, Copy, Debug, PartialEq, Eq, Structural)]
pub struct Rect {
    pub x: u16,
    pub y: u16,
    pub width: u16,
    pub height: u16,
}

/// How the cursor is drawn. The backend accepts a kind on `show_cursor` but
/// emits the same visibility sequence for every kind.
#[derive(Clone, Copy, Debug, PartialEq, Eq, Structural)]
pub enum CursorKind {
    Block,
    Bar,
    Underline,
    Hidden,
}

/// The bytes entering the alternate screen.
pub open spec fn enter_alt_screen_bytes() -> Seq<u8> {
    csi(seq![0x3fu8, 0x31u8, 0x30u8, 0x34u8, 0x39u8], 0x68)
}

/// The bytes leaving the alternate screen.
pub open spec fn leave_alt_screen_bytes() -> Seq<u8> {
    csi(seq![0x3fu8, 0x31u8, 0x30u8, 0x34u8, 0x39u8], 0x6c)
}

/// The bytes hiding the cursor.
pub open spec fn hide_cursor_bytes() -> Seq<u8> {
    csi(seq![0x3fu8, 0x32u8, 0x35u8], 0x6c)
}

/// The bytes showing the cursor.
pub open spec fn show_cursor_bytes() -> Seq<u8> {
    csi(seq![0x3fu8, 0x32u8, 0x35u8], 0x68)
}

/// The bytes erasing the whole screen.
pub open spec fn clear_bytes() -> Seq<u8> {
    csi(seq![0x32u8], 0x4a)
}

/// Everything a caller-ordered sequence of cells produces, in that order.
pub open spec fn draw_bytes(content: Seq<(u16, u16, Cell)>) -> Seq<u8>
    decreases content.len(),
{
    if content.len() == 0 {
        Seq::empty()
    } else {
        cell_bytes(content[0].0, content[0].1, content[0].2) + draw_bytes(content.skip(1))
    }
}

/// The terminal output backend.
pub struct AlacrittyBackend {
    buf: Vec<u8>,
    size: Rect,
}

impl AlacrittyBackend {
    /// The control bytes built since the last flush, in emission order.
    pub closed spec fn pending(&self) -> Seq<u8> {
        self.buf@
    }

    /// The last size pushed through `resize`.
    pub closed spec fn spec_size(&self) -> Rect {
        self.size
    }

    /// A fresh backend: nothing pending, and a provisional 80 by 24 size
    /// that stands until the caller pushes the real one.
    pub fn new() -> (r: AlacrittyBackend)
        ensures
            r.pending() == Seq::<u8>::empty(),
            r.spec_size() == (Rect { x: 0, y: 0, width: 80, height: 24 }),
    {
        AlacrittyBackend { buf: Vec::new(), size: Rect { x: 0, y: 0, width: 80, height: 24 } }
    }

    /// Enter the alternate screen.
    pub fn claim(&mut self)
        ensures
            final(self).pending() == old(self).pending() + enter_alt_screen_bytes(),
            final(self).spec_size() == old(self).spec_size(),
    {
        self.push_csi_params(&[0x3f, 0x31, 0x30, 0x34, 0x39], 0x68);
        assert(self.pending() =~= old(self).pending() + enter_alt_screen_bytes());
    }

    /// Leave the alternate screen. Callers run this on every exit path, the
    /// failing ones included, so the terminal is not left unusable.
    pub fn restore(&mut self)
        ensures
            final(self).pending() == old(self).pending() + leave_alt_screen_bytes(),
            final(self).spec_size() == old(self).spec_size(),
    {
        self.push_csi_params(&[0x3f, 0x31, 0x30, 0x34, 0x39], 0x6c);
        assert(self.pending() =~= old(self).pending() + leave_alt_screen_bytes());
    }

    /// Encode a caller-ordered sequence of cells. The backend repaints every
    /// cell it is handed and decides nothing about which cells need it.
    pub fn draw(&mut self, content: &Vec<(u16, u16, Cell)>)
        ensures
            final(self).pending() == old(self).pending() + draw_bytes(content@),
            final(self).spec_size() == old(self).spec_size(),
    {
        let mut i: usize = 0;
        proof {
            assert(content@.skip(0) =~= content@);
        }
        while i < content.len()
            invariant
                0 <= i <= content.len(),
                self.pending() + draw_bytes(content@.skip(i as int)) == old(self).pending()
                    + draw_bytes(content@),
                self.spec_size() == old(self).spec_size(),
            decreases content.len() - i,
        {
            let (x, y, cell) = &content[i];
            encode_cell(&mut self.buf, *x, *y, cell);
            proof {
                assert(content@.skip(i as int)[0] == content@[i as int]);
                assert(content@.skip(i as int).skip(1) =~= content@.skip(i as int + 1));
            }
            i = i + 1;
        }
        proof {
            assert(content@.skip(content@.len() as int) =~= Seq::<(u16, u16, Cell)>::empty());
            assert(self.pending() =~= self.pending() + draw_bytes(content@.skip(i as int)));
        }
    }

    /// Hide the cursor.
    pub fn hide_cursor(&mut self)
        ensures
            final(self).pending() == old(self).pending() + hide_cursor_bytes(),
            final(self).spec_size() == old(self).spec_size(),
    {
        self.push_csi_params(&[0x3f, 0x32, 0x35], 0x6c);
        assert(self.pending() =~= old(self).pending() + hide_cursor_bytes());
    }

    /// Show the cursor. The kind is accepted but not differentiated: every
    /// kind produces the same visibility sequence.
    pub fn show_cursor(&mut self, _kind: CursorKind)
        ensures
            final(self).pending() == old(self).pending() + show_cursor_bytes(),
            final(self).spec_size() == old(self).spec_size(),
    {
        self.push_csi_params(&[0x3f, 0x32, 0x35], 0x68);
        assert(self.pending() =~= old(self).pending() + show_cursor_bytes());
    }

    /// Move the cursor to the 0-based logical coordinates `(x, y)`.
    pub fn set_cursor(&mut self, x: u16, y: u16)
        ensures
            final(self).pending() == old(self).pending() + crate::encode::goto_bytes(x, y),
            final(self).spec_size() == old(self).spec_size(),
    {
        crate::encode::write_goto(&mut self.buf, x, y);
    }

    /// Erase the whole screen.
    pub fn clear(&mut self)
        ensures
            final(self).pending() == old(self).pending() + clear_bytes(),
            final(self).spec_size() == old(self).spec_size(),
    {
        self.push_csi_params(&[0x32], 0x4a);
        assert(self.pending() =~= old(self).pending() + clear_bytes());
    }

    /// Record a new size. The backend never learns of a resize by itself.
    pub fn resize(&mut self, size: Rect)
        ensures
            final(self).spec_size() == size,
            final(self).pending() == old(self).pending(),
    {
        self.size = size;
    }

    /// The last pushed size.
    pub fn size(&self) -> (r: Rect)
        ensures
            r == self.spec_size(),
    {
        self.size
    }

    /// Hand the pending bytes to the caller, oldest first, and start over
    /// with an empty buffer. The caller writes them to the terminal; only
    /// after that write may it rely on the terminal's state.
    pub fn flush(&mut self) -> (r: Vec<u8>)
        ensures
            r@ == old(self).pending(),
            final(self).pending() == Seq::<u8>::empty(),
            final(self).spec_size() == old(self).spec_size(),
    {
        let mut r: Vec<u8> = Vec::new();
        core::mem::swap(&mut r, &mut self.buf);
        r
    }

    /// True-color output is assumed unconditionally; there is no capability
    /// negotiation.
    pub fn supports_true_color(&self) -> (r: bool)
        ensures
            r == true,
    {
        true
    }

    /// Append one control sequence: the CSI introducer, the given parameter
    /// bytes, and the final byte.
    fn push_csi_params(&mut self, params: &[u8], fin: u8)
        ensures
            final(self).pending() == old(self).pending() + csi(params@, fin),
            final(self).spec_size() == old(self).spec_size(),
    {
        self.buf.push(0x1b);
        self.buf.push(0x5b);
        let mut i: usize = 0;
        while i < params.len()
            invariant
                0 <= i <= params@.len(),
                self.buf@ == old(self).pending() + seq![0x1bu8, 0x5bu8] + params@.take(i as int),
                self.size == old(self).spec_size(),
            decreases params@.len() - i,
        {
            self.buf.push(params[i]);
            i = i + 1;
            assert(self.buf@ =~= old(self).pending() + seq![0x1bu8, 0x5bu8] + params@.take(
                i as int,
            ));
        }
        assert(params@.take(params@.len() as int) =~= params@);
        self.buf.push(fin);
        assert(self.buf@ =~= old(self).pending() + csi(params@, fin));
    }
}

} // verus!
