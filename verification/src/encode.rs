//! The cell encoder: a pure mapping from one styled cell to terminal control
//! bytes.
//!
//! For a cell at target coordinates it emits a cursor-move sequence, one
//! sequence per active modifier, the foreground color, the background color,
//! the literal text, and a full attribute reset. It never diffs against a
//! previous cell; deciding which cells are worth sending is the caller's
//! business.

use vstd::prelude::*;

use crate::style::{Cell, Color, Modifiers};

verus! {

/// The decimal digits of `n`, most significant first, without the special
/// case for zero (`dec_rec(0)` is the empty sequence).
pub open spec fn dec_rec(n: nat) -> Seq<u8>
    decreases n,
{
    if n == 0 {
        Seq::empty()
    } else {
        dec_rec(n / 10) + seq![(0x30 + n % 10) as u8]
    }
}

/// The ASCII decimal rendering of `n`; zero is rendered as the single
/// digit `0`.
pub open spec fn dec_bytes(n: nat) -> Seq<u8> {
    if n == 0 {
        seq![0x30u8]
    } else {
        dec_rec(n)
    }
}

/// A control sequence: the CSI introducer, the parameter bytes, and the
/// final byte.
pub open spec fn csi(params: Seq<u8>, fin: u8) -> Seq<u8> {
    seq![0x1bu8, 0x5bu8] + params + seq![fin]
}

/// A select-graphic-rendition sequence with the given parameter bytes.
pub open spec fn sgr(params: Seq<u8>) -> Seq<u8> {
    csi(params, 0x6d)
}

/// The SGR parameter bytes for one color, on the foreground or the
/// background channel.
pub open spec fn color_param(c: Color, is_bg: bool) -> Seq<u8> {
    match c {
        Color::Reset => dec_bytes(if is_bg {
            49
        } else {
            39
        }),
        Color::Black => dec_bytes(if is_bg {
            40
        } else {
            30
        }),
        Color::Red => dec_bytes(if is_bg {
            41
        } else {
            31
        }),
        Color::Green => dec_bytes(if is_bg {
            42
        } else {
            32
        }),
        Color::Yellow => dec_bytes(if is_bg {
            43
        } else {
            33
        }),
        Color::Blue => dec_bytes(if is_bg {
            44
        } else {
            34
        }),
        Color::Magenta => dec_bytes(if is_bg {
            45
        } else {
            35
        }),
        Color::Cyan => dec_bytes(if is_bg {
            46
        } else {
            36
        }),
        Color::Gray => dec_bytes(90),
        Color::LightRed => dec_bytes(if is_bg {
            101
        } else {
            91
        }),
        Color::LightGreen => dec_bytes(if is_bg {
            102
        } else {
            92
        }),
        Color::LightYellow => dec_bytes(if is_bg {
            103
        } else {
            93
        }),
        Color::LightBlue => dec_bytes(if is_bg {
            104
        } else {
            94
        }),
        Color::LightMagenta => dec_bytes(if is_bg {
            105
        } else {
            95
        }),
        Color::LightCyan => dec_bytes(if is_bg {
            106
        } else {
            96
        }),
        Color::LightGray => dec_bytes(if is_bg {
            47
        } else {
            37
        }),
        Color::White => dec_bytes(if is_bg {
            107
        } else {
            97
        }),
        Color::Indexed(i) => dec_bytes(if is_bg {
            48
        } else {
            38
        }) + seq![0x3bu8, 0x35u8, 0x3bu8] + dec_bytes(i as nat),
        Color::Rgb(r, g, b) => dec_bytes(if is_bg {
            48
        } else {
            38
        }) + seq![0x3bu8, 0x32u8, 0x3bu8] + dec_bytes(r as nat) + seq![0x3bu8] + dec_bytes(
            g as nat,
        ) + seq![0x3bu8] + dec_bytes(b as nat),
    }
}

/// The full SGR sequence selecting one color.
pub open spec fn color_bytes(c: Color, is_bg: bool) -> Seq<u8> {
    sgr(color_param(c, is_bg))
}

/// The cursor-move sequence for the 0-based logical coordinates `(x, y)`;
/// the wire coordinates are 1-based.
pub open spec fn goto_bytes(x: u16, y: u16) -> Seq<u8> {
    csi(dec_bytes(y as nat + 1) + seq![0x3bu8] + dec_bytes(x as nat + 1), 0x48)
}

/// One SGR sequence per active modifier: bold, then italic, then reversed.
pub open spec fn modifier_bytes(m: Modifiers) -> Seq<u8> {
    (if m.bold {
        sgr(seq![0x31u8])
    } else {
        Seq::empty()
    }) + (if m.italic {
        sgr(seq![0x33u8])
    } else {
        Seq::empty()
    }) + (if m.reversed {
        sgr(seq![0x37u8])
    } else {
        Seq::empty()
    })
}

/// The SGR sequence resetting every attribute.
pub open spec fn reset_bytes() -> Seq<u8> {
    sgr(seq![0x30u8])
}

/// Everything emitted for one cell at `(x, y)`: cursor move, modifiers,
/// foreground, background, the literal text, and a full reset. The mapping
/// is total over all colors and modifier sets and depends on nothing but its
/// arguments, so encoding the same cell twice yields byte-identical output.
pub open spec fn cell_bytes(x: u16, y: u16, cell: Cell) -> Seq<u8> {
    goto_bytes(x, y) + modifier_bytes(cell.modifiers) + color_bytes(cell.fg, false) + color_bytes(
        cell.bg,
        true,
    ) + cell.symbol@ + reset_bytes()
}

/// Append the ASCII decimal rendering of `n` to `out`.
pub fn push_decimal(out: &mut Vec<u8>, n: u32)
    ensures
        final(out)@ == old(out)@ + dec_bytes(n as nat),
{
    if n == 0 {
        out.push(0x30);
        assert(out@ =~= old(out)@ + dec_bytes(0));
        return ;
    }
    let mut digits: Vec<u8> = Vec::new();
    let mut m: u32 = n;
    while m > 0
        invariant
            dec_rec(n as nat) == dec_rec(m as nat) + digits@,
        decreases m,
    {
        let d: u8 = (m % 10) as u8;
        let ghost pre = digits@;
        digits.insert(0, 0x30 + d);
        assert(digits@ =~= seq![(0x30 + m as nat % 10) as u8] + pre);
        m = m / 10;
        assert(dec_rec(n as nat) =~= dec_rec(m as nat) + digits@);
    }
    out.append(&mut digits);
    assert(out@ =~= old(out)@ + dec_bytes(n as nat));
}

/// Append the SGR sequence for `color` to `out`.
pub fn write_color(out: &mut Vec<u8>, color: Color, is_bg: bool)
    ensures
        final(out)@ == old(out)@ + color_bytes(color, is_bg),
{
    out.push(0x1b);
    out.push(0x5b);
    match color {
        Color::Reset => push_decimal(out, if is_bg {
            49
        } else {
            39
        }),
        Color::Black => push_decimal(out, if is_bg {
            40
        } else {
            30
        }),
        Color::Red => push_decimal(out, if is_bg {
            41
        } else {
            31
        }),
        Color::Green => push_decimal(out, if is_bg {
            42
        } else {
            32
        }),
        Color::Yellow => push_decimal(out, if is_bg {
            43
        } else {
            33
        }),
        Color::Blue => push_decimal(out, if is_bg {
            44
        } else {
            34
        }),
        Color::Magenta => push_decimal(out, if is_bg {
            45
        } else {
            35
        }),
        Color::Cyan => push_decimal(out, if is_bg {
            46
        } else {
            36
        }),
        Color::Gray => push_decimal(out, 90),
        Color::LightRed => push_decimal(out, if is_bg {
            101
        } else {
            91
        }),
        Color::LightGreen => push_decimal(out, if is_bg {
            102
        } else {
            92
        }),
        Color::LightYellow => push_decimal(out, if is_bg {
            103
        } else {
            93
        }),
        Color::LightBlue => push_decimal(out, if is_bg {
            104
        } else {
            94
        }),
        Color::LightMagenta => push_decimal(out, if is_bg {
            105
        } else {
            95
        }),
        Color::LightCyan => push_decimal(out, if is_bg {
            106
        } else {
            96
        }),
        Color::LightGray => push_decimal(out, if is_bg {
            47
        } else {
            37
        }),
        Color::White => push_decimal(out, if is_bg {
            107
        } else {
            97
        }),
        Color::Indexed(i) => {
            push_decimal(out, if is_bg {
                48
            } else {
                38
            });
            out.push(0x3b);
            out.push(0x35);
            out.push(0x3b);
            push_decimal(out, i as u32);
        },
        Color::Rgb(r, g, b) => {
            push_decimal(out, if is_bg {
                48
            } else {
                38
            });
            out.push(0x3b);
            out.push(0x32);
            out.push(0x3b);
            push_decimal(out, r as u32);
            out.push(0x3b);
            push_decimal(out, g as u32);
            out.push(0x3b);
            push_decimal(out, b as u32);
        },
    }
    out.push(0x6d);
    assert(out@ =~= old(out)@ + color_bytes(color, is_bg));
}

/// Append the cursor-move sequence for the 0-based coordinates `(x, y)`.
pub fn write_goto(out: &mut Vec<u8>, x: u16, y: u16)
    ensures
        final(out)@ == old(out)@ + goto_bytes(x, y),
{
    out.push(0x1b);
    out.push(0x5b);
    push_decimal(out, y as u32 + 1);
    out.push(0x3b);
    push_decimal(out, x as u32 + 1);
    out.push(0x48);
    assert(out@ =~= old(out)@ + goto_bytes(x, y));
}

/// Append every byte that one cell at `(x, y)` produces.
#[verifier::rlimit(100)]
pub fn encode_cell(out: &mut Vec<u8>, x: u16, y: u16, cell: &Cell)
    ensures
        final(out)@ == old(out)@ + cell_bytes(x, y, *cell),
{
    write_goto(out, x, y);
    if cell.modifiers.bold {
        out.push(0x1b);
        out.push(0x5b);
        out.push(0x31);
        out.push(0x6d);
    }
    if cell.modifiers.italic {
        out.push(0x1b);
        out.push(0x5b);
        out.push(0x33);
        out.push(0x6d);
    }
    if cell.modifiers.reversed {
        out.push(0x1b);
        out.push(0x5b);
        out.push(0x37);
        out.push(0x6d);
    }
    assert(out@ =~= old(out)@ + goto_bytes(x, y) + modifier_bytes(cell.modifiers));
    write_color(out, cell.fg, false);
    write_color(out, cell.bg, true);
    let ghost head = old(out)@ + goto_bytes(x, y) + modifier_bytes(cell.modifiers) + color_bytes(
        cell.fg,
        false,
    ) + color_bytes(cell.bg, true);
    assert(out@ =~= head + cell.symbol@.take(0));
    let mut i: usize = 0;
    while i < cell.symbol.len()
        invariant
            0 <= i <= cell.symbol.len(),
            out@ == head + cell.symbol@.take(i as int),
        decreases cell.symbol.len() - i,
    {
        out.push(cell.symbol[i]);
        i = i + 1;
        assert(out@ =~= head + cell.symbol@.take(i as int));
    }
    assert(cell.symbol@.take(cell.symbol@.len() as int) =~= cell.symbol@);
    out.push(0x1b);
    out.push(0x5b);
    out.push(0x30);
    out.push(0x6d);
    assert(out@ =~= head + cell.symbol@ + reset_bytes());
    assert(out@ =~= old(out)@ + cell_bytes(x, y, *cell));
}

} // verus!
