//! The byte-to-event decoder: an incremental parser from raw terminal input
//! bytes to structured key events.
//!
//! The input wire protocol covers single-byte input, multi-byte UTF-8, and
//! escape-introduced sequences (arrows, function keys, reported events).
//! The decoder keeps at most one incomplete sequence prefix across calls and
//! never a complete one; malformed bytes are dropped and decoding resumes at
//! the next byte. Emission order matches input arrival order.
//!
//! The whole behaviour is fixed by one pair of spec functions:
//! [`stream_events`] says which events a byte sequence yields, and
//! [`stream_rest`] which trailing bytes stay buffered.

use vstd::prelude::*;

use vstd::utf8::{
    char_u32_cast, decode_first_codepoint, decode_first_scalar, is_leading_byte_width_2,
    is_leading_byte_width_3, is_leading_byte_width_4, is_scalar, valid_first_scalar,
};

verus! {

/// Which key was pressed.
#[derive(Clone, Copy, Debug, PartialEq, Eq, Structural)]
pub enum KeyCode {
    Char(char),
    Esc,
    Enter,
    Tab,
    Backspace,
    Up,
    Down,
    Left,
    Right,
    Home,
    End,
    PageUp,
    PageDown,
    Insert,
    Delete,
    F(u8),
}

/// Which modifier keys were held.
#[derive(Clone, Copy, Debug, PartialEq, Eq, Structural)]
pub struct KeyModifiers {
    pub ctrl: bool,
    pub alt: bool,
    pub shift: bool,
}

/// One key press: a code plus the modifiers held with it.
#[derive(Clone, Copy, Debug, PartialEq, Eq, Structural)]
pub struct KeyEvent {
    pub code: KeyCode,
    pub modifiers: KeyModifiers,
}

/// A structured input event, immutable once built.
#[derive(Clone, Copy, Debug, PartialEq, Eq, Structural)]
pub enum Event {
    Key(KeyEvent),
    Resize(u16, u16),
    IdleTimeout,
}

/// The empty modifier set.
pub open spec fn no_mods() -> KeyModifiers {
    KeyModifiers { ctrl: false, alt: false, shift: false }
}

/// A key event with no modifiers.
pub open spec fn plain_key(code: KeyCode) -> Event {
    Event::Key(KeyEvent { code, modifiers: no_mods() })
}

/// The same event with the alt modifier added (key events only).
pub open spec fn alt_of(e: Event) -> Event {
    match e {
        Event::Key(k) => Event::Key(
            KeyEvent {
                code: k.code,
                modifiers: KeyModifiers { ctrl: k.modifiers.ctrl, alt: true, shift: k.modifiers.shift },
            },
        ),
        _ => e,
    }
}

/// The event for one byte outside an escape sequence, or `None` for bytes
/// that are dropped. Control bytes with a dedicated key come first; the
/// remaining control range maps to ctrl-chords; printable bytes map to
/// themselves.
pub open spec fn byte_key(b: u8) -> Option<Event> {
    if b == 0x0d {
        Some(plain_key(KeyCode::Enter))
    } else if b == 0x09 {
        Some(plain_key(KeyCode::Tab))
    } else if b == 0x7f || b == 0x08 {
        Some(plain_key(KeyCode::Backspace))
    } else if 0x01 <= b && b <= 0x1a {
        Some(
            Event::Key(
                KeyEvent {
                    code: KeyCode::Char((((b + 0x60) as u8)) as char),
                    modifiers: KeyModifiers { ctrl: true, alt: false, shift: false },
                },
            ),
        )
    } else if 0x20 <= b && b <= 0x7e {
        Some(plain_key(KeyCode::Char(b as char)))
    } else {
        None
    }
}

/// Accumulator for the numeric parameters of a control sequence: the values
/// finished so far, and the length and value of the digit run being read.
/// `ok` goes false on the first byte that cannot belong to a parameter list
/// and stays false.
pub struct ParamState {
    pub ok: bool,
    pub vals: Seq<u32>,
    pub cur_len: nat,
    pub cur_val: nat,
}

/// The accumulator before any byte.
pub open spec fn param_init() -> ParamState {
    ParamState { ok: true, vals: Seq::empty(), cur_len: 0, cur_val: 0 }
}

/// One parameter byte: a digit extends the current value (at most five
/// digits), a semicolon finishes a non-empty value, anything else spoils the
/// list.
pub open spec fn param_step(st: ParamState, b: u8) -> ParamState {
    if !st.ok {
        st
    } else if 0x30 <= b && b <= 0x39 {
        if st.cur_len >= 5 {
            ParamState { ok: false, vals: st.vals, cur_len: st.cur_len, cur_val: st.cur_val }
        } else {
            ParamState {
                ok: true,
                vals: st.vals,
                cur_len: st.cur_len + 1,
                cur_val: st.cur_val * 10 + (b - 0x30) as nat,
            }
        }
    } else if b == 0x3b {
        if st.cur_len == 0 {
            ParamState { ok: false, vals: st.vals, cur_len: st.cur_len, cur_val: st.cur_val }
        } else {
            ParamState { ok: true, vals: st.vals.push(st.cur_val as u32), cur_len: 0, cur_val: 0 }
        }
    } else {
        ParamState { ok: false, vals: st.vals, cur_len: st.cur_len, cur_val: st.cur_val }
    }
}

/// The accumulator after every byte of `s`, oldest first.
pub open spec fn param_run(s: Seq<u8>) -> ParamState
    decreases s.len(),
{
    if s.len() == 0 {
        param_init()
    } else {
        param_step(param_run(s.drop_last()), s.last())
    }
}

/// The digit run of a parameter value never exceeds five digits, so the
/// value itself stays below 100000 (and below the next power of ten for
/// every shorter run).
pub proof fn lemma_param_run_bounds(s: Seq<u8>)
    ensures
        param_run(s).cur_len <= 5,
        param_run(s).cur_val <= 99999,
        param_run(s).cur_len <= 4 ==> param_run(s).cur_val <= 9999,
        param_run(s).cur_len <= 3 ==> param_run(s).cur_val <= 999,
        param_run(s).cur_len <= 2 ==> param_run(s).cur_val <= 99,
        param_run(s).cur_len <= 1 ==> param_run(s).cur_val <= 9,
        param_run(s).cur_len == 0 ==> param_run(s).cur_val == 0,
    decreases s.len(),
{
    if s.len() > 0 {
        lemma_param_run_bounds(s.drop_last());
    }
}

/// The parameter values encoded by the bytes of `s`, or `None` when the
/// bytes are not a well-formed parameter list. An empty list is
/// well-formed and has no values.
pub open spec fn parse_params(s: Seq<u8>) -> Option<Seq<u32>> {
    let st = param_run(s);
    if !st.ok {
        None
    } else if st.cur_len > 0 {
        Some(st.vals.push(st.cur_val as u32))
    } else if st.vals.len() == 0 {
        Some(Seq::empty())
    } else {
        None
    }
}

/// The key selected by a numeric parameter before a tilde final byte.
pub open spec fn tilde_key(n: u32) -> Option<KeyCode> {
    if n == 1 || n == 7 {
        Some(KeyCode::Home)
    } else if n == 2 {
        Some(KeyCode::Insert)
    } else if n == 3 {
        Some(KeyCode::Delete)
    } else if n == 4 || n == 8 {
        Some(KeyCode::End)
    } else if n == 5 {
        Some(KeyCode::PageUp)
    } else if n == 6 {
        Some(KeyCode::PageDown)
    } else if 11 <= n && n <= 15 {
        Some(KeyCode::F((n - 10) as u8))
    } else if 17 <= n && n <= 21 {
        Some(KeyCode::F((n - 11) as u8))
    } else if n == 23 || n == 24 {
        Some(KeyCode::F((n - 12) as u8))
    } else {
        None
    }
}

/// The event of one complete control sequence, given its parameter bytes and
/// final byte; `None` for sequences that are dropped as unrecognized.
/// A `t` sequence whose first parameter is 8 is the terminal's size report
/// and becomes a resize event (columns, rows).
pub open spec fn csi_event(params: Seq<u8>, fin: u8) -> Option<Event> {
    match parse_params(params) {
        Option::None => None,
        Option::Some(vals) => {
            if fin == 0x41 && vals.len() == 0 {
                Some(plain_key(KeyCode::Up))
            } else if fin == 0x42 && vals.len() == 0 {
                Some(plain_key(KeyCode::Down))
            } else if fin == 0x43 && vals.len() == 0 {
                Some(plain_key(KeyCode::Right))
            } else if fin == 0x44 && vals.len() == 0 {
                Some(plain_key(KeyCode::Left))
            } else if fin == 0x48 && vals.len() == 0 {
                Some(plain_key(KeyCode::Home))
            } else if fin == 0x46 && vals.len() == 0 {
                Some(plain_key(KeyCode::End))
            } else if fin == 0x7e && vals.len() == 1 {
                match tilde_key(vals[0]) {
                    Option::Some(code) => Some(plain_key(code)),
                    Option::None => None,
                }
            } else if fin == 0x74 && vals.len() == 3 && vals[0] == 8 && vals[1] <= 0xffff
                && vals[2] <= 0xffff {
                Some(Event::Resize(vals[2] as u16, vals[1] as u16))
            } else {
                None
            }
        },
    }
}

/// The index of the first byte at or after `i` that cannot continue a
/// control sequence's parameter part, or the length of `s` when every
/// remaining byte can.
pub open spec fn csi_end(s: Seq<u8>, i: int) -> int
    decreases s.len() - i,
{
    if i < 0 || i >= s.len() {
        s.len() as int
    } else if 0x20 <= s[i] && s[i] <= 0x3f {
        csi_end(s, i + 1)
    } else {
        i
    }
}

/// `csi_end` stays between its start index and the sequence's length.
pub proof fn lemma_csi_end_bounds(s: Seq<u8>, i: int)
    requires
        0 <= i <= s.len(),
    ensures
        i <= csi_end(s, i) <= s.len(),
    decreases s.len() - i,
{
    if i < s.len() && 0x20 <= s[i] && s[i] <= 0x3f {
        lemma_csi_end_bounds(s, i + 1);
    }
}

/// Scan one control sequence at the head of `s` (`s[0]` is the escape byte,
/// `s[1]` the bracket). Returns how many bytes the first token takes and
/// which event it yields; zero bytes means the sequence is still incomplete.
/// A byte that can belong to no sequence aborts it: the prefix before that
/// byte is dropped and scanning resumes at the byte itself.
pub open spec fn scan_csi(s: Seq<u8>) -> (int, Option<Event>) {
    let e = csi_end(s, 2);
    if e >= s.len() {
        (0, None)
    } else if 0x40 <= s[e] && s[e] <= 0x7e {
        (e + 1, csi_event(s.subrange(2, e), s[e]))
    } else {
        (e, None)
    }
}

/// Scan one escape-introduced token at the head of `s` (`s[0]` is the
/// escape byte). An escape byte in front of another escape byte stands
/// alone; an escape byte in front of a plain byte makes an alt chord; an
/// escape byte in front of anything else is dropped.
pub open spec fn scan_escape(s: Seq<u8>) -> (int, Option<Event>) {
    if s.len() < 2 {
        (0, None)
    } else if s[1] == 0x5b {
        scan_csi(s)
    } else if s[1] == 0x4f {
        if s.len() < 3 {
            (0, None)
        } else if 0x50 <= s[2] && s[2] <= 0x53 {
            (3, Some(plain_key(KeyCode::F((s[2] - 0x4f) as u8))))
        } else {
            (2, None)
        }
    } else if s[1] == 0x1b {
        (1, Some(plain_key(KeyCode::Esc)))
    } else if s[1] < 0x80 && byte_key(s[1]) is Some {
        (2, Some(alt_of(byte_key(s[1]).unwrap())))
    } else {
        (1, None)
    }
}

/// Scan one UTF-8 encoded character at the head of `s` (`s[0]` is at least
/// 0x80). A malformed encoding drops its leading byte and scanning resumes
/// at the next byte.
pub open spec fn scan_utf8(s: Seq<u8>) -> (int, Option<Event>) {
    let b = s[0];
    let w: int = if is_leading_byte_width_2(b) {
        2
    } else if is_leading_byte_width_3(b) {
        3
    } else if is_leading_byte_width_4(b) {
        4
    } else {
        1
    };
    if w == 1 {
        (1, None)
    } else if s.len() < w {
        (0, None)
    } else if valid_first_scalar(s.subrange(0, w)) {
        (w, Some(plain_key(KeyCode::Char(decode_first_scalar(s.subrange(0, w)) as char))))
    } else {
        (1, None)
    }
}

/// Scan the first token of `s`: how many bytes it takes (zero when `s` holds
/// only an incomplete prefix) and which event it yields (`None` for dropped
/// or unrecognized bytes).
pub open spec fn scan(s: Seq<u8>) -> (int, Option<Event>) {
    if s.len() == 0 {
        (0, None)
    } else if s[0] == 0x1b {
        scan_escape(s)
    } else if s[0] < 0x80 {
        (1, byte_key(s[0]))
    } else {
        scan_utf8(s)
    }
}

/// A scan consumes at most the bytes it was shown, and at least one byte
/// whenever it consumes anything.
pub proof fn lemma_scan_bounds(s: Seq<u8>)
    ensures
        0 <= scan(s).0 <= s.len(),
{
    if s.len() > 0 && s[0] == 0x1b && s.len() >= 2 && s[1] == 0x5b {
        lemma_csi_end_bounds(s, 2);
    }
}

/// Every event the byte sequence `s` yields, in arrival order.
pub open spec fn stream_events(s: Seq<u8>) -> Seq<Event>
    decreases s.len(),
{
    let k = scan(s).0;
    if k <= 0 || k > s.len() {
        Seq::empty()
    } else {
        (match scan(s).1 {
            Option::Some(e) => seq![e],
            Option::None => Seq::empty(),
        }) + stream_events(s.skip(k))
    }
}

/// The incomplete prefix left after every complete token of `s` is consumed.
pub open spec fn stream_rest(s: Seq<u8>) -> Seq<u8>
    decreases s.len(),
{
    let k = scan(s).0;
    if k <= 0 || k > s.len() {
        s
    } else {
        stream_rest(s.skip(k))
    }
}

/// Relies on char::from_u32: for every value outside the surrogate range
/// and at most 0x10FFFF it returns the character with exactly that scalar
/// value, and never `None`.
#[verifier::external_body]
fn char_from_u32(v: u32) -> (r: char)
    requires
        is_scalar(v),
    ensures
        r as u32 == v,
{
    char::from_u32(v).unwrap()
}

/// The executable twin of [`byte_key`].
fn byte_key_exec(b: u8) -> (r: Option<Event>)
    ensures
        r == byte_key(b),
{
    if b == 0x0d {
        Some(Event::Key(KeyEvent { code: KeyCode::Enter, modifiers: mods_none() }))
    } else if b == 0x09 {
        Some(Event::Key(KeyEvent { code: KeyCode::Tab, modifiers: mods_none() }))
    } else if b == 0x7f || b == 0x08 {
        Some(Event::Key(KeyEvent { code: KeyCode::Backspace, modifiers: mods_none() }))
    } else if 0x01 <= b && b <= 0x1a {
        Some(
            Event::Key(
                KeyEvent {
                    code: KeyCode::Char((b + 0x60) as char),
                    modifiers: KeyModifiers { ctrl: true, alt: false, shift: false },
                },
            ),
        )
    } else if 0x20 <= b && b <= 0x7e {
        Some(Event::Key(KeyEvent { code: KeyCode::Char(b as char), modifiers: mods_none() }))
    } else {
        None
    }
}

/// The empty modifier set, as a value.
fn mods_none() -> (r: KeyModifiers)
    ensures
        r == no_mods(),
{
    KeyModifiers { ctrl: false, alt: false, shift: false }
}

/// The executable twin of [`alt_of`].
fn with_alt(e: Event) -> (r: Event)
    ensures
        r == alt_of(e),
{
    match e {
        Event::Key(k) => Event::Key(
            KeyEvent {
                code: k.code,
                modifiers: KeyModifiers {
                    ctrl: k.modifiers.ctrl,
                    alt: true,
                    shift: k.modifiers.shift,
                },
            },
        ),
        _ => e,
    }
}

/// The executable twin of [`tilde_key`].
fn tilde_key_exec(n: u32) -> (r: Option<KeyCode>)
    ensures
        r == tilde_key(n),
{
    if n == 1 || n == 7 {
        Some(KeyCode::Home)
    } else if n == 2 {
        Some(KeyCode::Insert)
    } else if n == 3 {
        Some(KeyCode::Delete)
    } else if n == 4 || n == 8 {
        Some(KeyCode::End)
    } else if n == 5 {
        Some(KeyCode::PageUp)
    } else if n == 6 {
        Some(KeyCode::PageDown)
    } else if 11 <= n && n <= 15 {
        Some(KeyCode::F((n - 10) as u8))
    } else if 17 <= n && n <= 21 {
        Some(KeyCode::F((n - 11) as u8))
    } else if n == 23 || n == 24 {
        Some(KeyCode::F((n - 12) as u8))
    } else {
        None
    }
}

/// Parse the parameter bytes `buf[start..end]` of a control sequence.
fn parse_params_exec(buf: &Vec<u8>, start: usize, end: usize) -> (r: Option<Vec<u32>>)
    requires
        start <= end <= buf@.len(),
    ensures
        r is Some <==> parse_params(buf@.subrange(start as int, end as int)) is Some,
        r matches Some(v) ==> parse_params(buf@.subrange(start as int, end as int)) == Some(v@),
{
    let ghost sub = buf@.subrange(start as int, end as int);
    let mut ok = true;
    let mut vals: Vec<u32> = Vec::new();
    let mut cur_len: usize = 0;
    let mut cur_val: u32 = 0;
    let mut j: usize = start;
    proof {
        assert(sub.take(0) =~= Seq::<u8>::empty());
    }
    while j < end
        invariant
            start <= j <= end <= buf@.len(),
            sub == buf@.subrange(start as int, end as int),
            ({
                let st = param_run(sub.take((j - start) as int));
                st.ok == ok && st.vals == vals@ && st.cur_len == cur_len && st.cur_val == cur_val
            }),
        decreases end - j,
    {
        let b = buf[j];
        proof {
            lemma_param_run_bounds(sub.take((j - start) as int));
            assert(sub.take((j - start + 1) as int).drop_last() =~= sub.take((j - start) as int));
            assert(sub.take((j - start + 1) as int).last() == buf@[j as int]);
        }
        if ok {
            if 0x30 <= b && b <= 0x39 {
                if cur_len >= 5 {
                    ok = false;
                } else {
                    cur_len = cur_len + 1;
                    cur_val = cur_val * 10 + (b - 0x30) as u32;
                }
            } else if b == 0x3b {
                if cur_len == 0 {
                    ok = false;
                } else {
                    vals.push(cur_val);
                    cur_len = 0;
                    cur_val = 0;
                }
            } else {
                ok = false;
            }
        }
        j = j + 1;
    }
    proof {
        assert(sub.take((end - start) as int) =~= sub);
    }
    if !ok {
        None
    } else if cur_len > 0 {
        vals.push(cur_val);
        Some(vals)
    } else if vals.len() == 0 {
        Some(vals)
    } else {
        None
    }
}

/// The event of the complete control sequence whose final byte sits at
/// `buf[e]` and whose parameter bytes are `buf[2..e]`.
fn csi_token_event(buf: &Vec<u8>, e: usize) -> (r: Option<Event>)
    requires
        2 <= e < buf@.len(),
    ensures
        r == csi_event(buf@.subrange(2, e as int), buf@[e as int]),
{
    let fin = buf[e];
    match parse_params_exec(buf, 2, e) {
        Option::None => None,
        Option::Some(vals) => {
            if fin == 0x41 && vals.len() == 0 {
                Some(Event::Key(KeyEvent { code: KeyCode::Up, modifiers: mods_none() }))
            } else if fin == 0x42 && vals.len() == 0 {
                Some(Event::Key(KeyEvent { code: KeyCode::Down, modifiers: mods_none() }))
            } else if fin == 0x43 && vals.len() == 0 {
                Some(Event::Key(KeyEvent { code: KeyCode::Right, modifiers: mods_none() }))
            } else if fin == 0x44 && vals.len() == 0 {
                Some(Event::Key(KeyEvent { code: KeyCode::Left, modifiers: mods_none() }))
            } else if fin == 0x48 && vals.len() == 0 {
                Some(Event::Key(KeyEvent { code: KeyCode::Home, modifiers: mods_none() }))
            } else if fin == 0x46 && vals.len() == 0 {
                Some(Event::Key(KeyEvent { code: KeyCode::End, modifiers: mods_none() }))
            } else if fin == 0x7e && vals.len() == 1 {
                match tilde_key_exec(vals[0]) {
                    Option::Some(code) => Some(
                        Event::Key(KeyEvent { code, modifiers: mods_none() }),
                    ),
                    Option::None => None,
                }
            } else if fin == 0x74 && vals.len() == 3 {
                let v0 = vals[0];
                let v1 = vals[1];
                let v2 = vals[2];
                if v0 == 8 && v1 <= 0xffff && v2 <= 0xffff {
                    Some(Event::Resize(v2 as u16, v1 as u16))
                } else {
                    None
                }
            } else {
                None
            }
        },
    }
}

/// Scan one UTF-8 encoded character at the head of `buf`.
fn scan_utf8_front(buf: &Vec<u8>) -> (r: (usize, Option<Event>))
    requires
        buf@.len() > 0,
        buf@[0] >= 0x80,
    ensures
        r.0 as int == scan_utf8(buf@).0,
        r.1 == scan_utf8(buf@).1,
{
    let b = buf[0];
    if b < 0xc0 || b > 0xf7 {
        return (1, None);
    }
    let w: usize = if b <= 0xdf {
        2
    } else if b <= 0xef {
        3
    } else {
        4
    };
    if buf.len() < w {
        return (0, None);
    }
    let ghost pre = buf@.subrange(0, w as int);
    assert(pre[0] == b);
    let c1 = buf[1];
    if !(0x80 <= c1 && c1 <= 0xbf) {
        assert(!valid_first_scalar(pre));
        return (1, None);
    }
    assert(pre[1] == c1);
    if w == 2 {
        let cp: u32 = (((b & 0x1f) as u32) << 6) | ((c1 & 0x3f) as u32);
        assert(cp == decode_first_codepoint(pre));
        assert(cp <= 0x7ff) by (bit_vector)
            requires
                cp == (((b & 0x1f) as u32) << 6) | ((c1 & 0x3f) as u32),
        ;
        if cp >= 0x80 {
            assert(valid_first_scalar(pre));
            let ch = char_from_u32(cp);
            proof {
                char_u32_cast(ch, cp);
            }
            return (2, Some(Event::Key(KeyEvent { code: KeyCode::Char(ch), modifiers: mods_none() })));
        } else {
            assert(!valid_first_scalar(pre));
            return (1, None);
        }
    }
    let c2 = buf[2];
    if !(0x80 <= c2 && c2 <= 0xbf) {
        assert(!valid_first_scalar(pre));
        return (1, None);
    }
    assert(pre[2] == c2);
    if w == 3 {
        let cp: u32 = (((b & 0x0f) as u32) << 12) | (((c1 & 0x3f) as u32) << 6) | ((c2
            & 0x3f) as u32);
        assert(cp == decode_first_codepoint(pre));
        assert(cp <= 0xffff) by (bit_vector)
            requires
                cp == (((b & 0x0f) as u32) << 12) | (((c1 & 0x3f) as u32) << 6) | ((c2
                    & 0x3f) as u32),
        ;
        if cp >= 0x800 && !(0xd800 <= cp && cp <= 0xdfff) {
            assert(valid_first_scalar(pre));
            let ch = char_from_u32(cp);
            proof {
                char_u32_cast(ch, cp);
            }
            return (3, Some(Event::Key(KeyEvent { code: KeyCode::Char(ch), modifiers: mods_none() })));
        } else {
            assert(!valid_first_scalar(pre));
            return (1, None);
        }
    }
    let c3 = buf[3];
    if !(0x80 <= c3 && c3 <= 0xbf) {
        assert(!valid_first_scalar(pre));
        return (1, None);
    }
    assert(pre[3] == c3);
    let cp: u32 = (((b & 0x07) as u32) << 18) | (((c1 & 0x3f) as u32) << 12) | (((c2
        & 0x3f) as u32) << 6) | ((c3 & 0x3f) as u32);
    assert(cp == decode_first_codepoint(pre));
    assert(cp <= 0x1fffff) by (bit_vector)
        requires
            cp == (((b & 0x07) as u32) << 18) | (((c1 & 0x3f) as u32) << 12) | (((c2
                & 0x3f) as u32) << 6) | ((c3 & 0x3f) as u32),
    ;
    if 0x10000 <= cp && cp <= 0x10ffff {
        assert(valid_first_scalar(pre));
        let ch = char_from_u32(cp);
        proof {
            char_u32_cast(ch, cp);
        }
        (4, Some(Event::Key(KeyEvent { code: KeyCode::Char(ch), modifiers: mods_none() })))
    } else {
        assert(!valid_first_scalar(pre));
        (1, None)
    }
}

/// Scan the first token of `buf`: the executable twin of [`scan`].
fn scan_front(buf: &Vec<u8>) -> (r: (usize, Option<Event>))
    ensures
        r.0 as int == scan(buf@).0,
        r.1 == scan(buf@).1,
        r.0 <= buf@.len(),
{
    proof {
        lemma_scan_bounds(buf@);
    }
    if buf.len() == 0 {
        return (0, None);
    }
    let b = buf[0];
    if b == 0x1b {
        if buf.len() < 2 {
            return (0, None);
        }
        let b1 = buf[1];
        if b1 == 0x5b {
            let mut i: usize = 2;
            while i < buf.len() && 0x20 <= buf[i] && buf[i] <= 0x3f
                invariant
                    2 <= i <= buf@.len(),
                    csi_end(buf@, 2) == csi_end(buf@, i as int),
                decreases buf@.len() - i,
            {
                proof {
                    assert(csi_end(buf@, i as int) == csi_end(buf@, i as int + 1));
                }
                i = i + 1;
            }
            if i == buf.len() {
                assert(csi_end(buf@, 2) == buf@.len());
                return (0, None);
            }
            assert(csi_end(buf@, i as int) == i as int);
            let fin = buf[i];
            if 0x40 <= fin && fin <= 0x7e {
                let ev = csi_token_event(buf, i);
                return (i + 1, ev);
            } else {
                return (i, None);
            }
        } else if b1 == 0x4f {
            if buf.len() < 3 {
                return (0, None);
            }
            let b2 = buf[2];
            if 0x50 <= b2 && b2 <= 0x53 {
                return (
                    3,
                    Some(
                        Event::Key(KeyEvent { code: KeyCode::F(b2 - 0x4f), modifiers: mods_none() }),
                    ),
                );
            } else {
                return (2, None);
            }
        } else if b1 == 0x1b {
            return (1, Some(Event::Key(KeyEvent { code: KeyCode::Esc, modifiers: mods_none() })));
        } else if b1 < 0x80 {
            match byte_key_exec(b1) {
                Option::Some(e) => {
                    return (2, Some(with_alt(e)));
                },
                Option::None => {
                    return (1, None);
                },
            }
        } else {
            return (1, None);
        }
    } else if b < 0x80 {
        (1, byte_key_exec(b))
    } else {
        scan_utf8_front(buf)
    }
}

/// The incremental byte-to-event decoder. Its state is the one incomplete
/// sequence prefix carried across reads; it is never a complete token.
pub struct Decoder {
    buf: Vec<u8>,
}

impl Decoder {
    /// The bytes buffered across calls.
    pub closed spec fn pending(&self) -> Seq<u8> {
        self.buf@
    }

    /// The buffered bytes never hold a complete token.
    pub open spec fn wf(&self) -> bool {
        scan(self.pending()).0 == 0
    }

    /// Whether nothing is buffered.
    pub fn is_empty(&self) -> (r: bool)
        ensures
            r == (self.pending().len() == 0),
    {
        self.buf.len() == 0
    }

    /// A fresh decoder with nothing buffered.
    pub fn new() -> (r: Decoder)
        ensures
            r.pending() == Seq::<u8>::empty(),
            r.wf(),
    {
        Decoder { buf: Vec::new() }
    }

    /// Feed one chunk of raw bytes: every event completed by the buffered
    /// bytes plus the chunk comes back in arrival order, and the incomplete
    /// trailing bytes stay buffered.
    pub fn advance(&mut self, chunk: &[u8]) -> (events: Vec<Event>)
        requires
            old(self).wf(),
        ensures
            events@ == stream_events(old(self).pending() + chunk@),
            final(self).pending() == stream_rest(old(self).pending() + chunk@),
            final(self).wf(),
    {
        let ghost s0 = self.buf@ + chunk@;
        self.buf.extend_from_slice(chunk);
        assert(self.buf@ == s0);
        let mut events: Vec<Event> = Vec::new();
        loop
            invariant
                stream_events(s0) == events@ + stream_events(self.buf@),
                stream_rest(s0) == stream_rest(self.buf@),
            ensures
                scan(self.buf@).0 == 0,
                stream_events(s0) == events@ + stream_events(self.buf@),
                stream_rest(s0) == stream_rest(self.buf@),
            decreases self.buf@.len(),
        {
            let (k, ev) = scan_front(&self.buf);
            if k == 0 {
                break ;
            }
            match ev {
                Option::Some(e) => {
                    events.push(e);
                },
                Option::None => {},
            }
            let tail = self.buf.split_off(k);
            self.buf = tail;
        }
        assert(stream_events(self.buf@) =~= Seq::<Event>::empty());
        assert(events@ =~= events@ + stream_events(self.buf@));
        assert(stream_rest(self.buf@) =~= self.buf@);
        events
    }
}

} // verus!
