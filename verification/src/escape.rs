//! The escape disambiguator: wraps the decoder with a short timer that tells
//! a lone escape keypress apart from the first byte of an escape sequence.
//!
//! When a read delivers exactly one escape byte while nothing is buffered,
//! the byte is held back and the caller is told to arm the timer. Any later
//! bytes disarm it: the held escape byte is fed to the decoder in front of
//! them, so the window delays events but never reorders them. When the
//! timer fires first, exactly one standalone-escape key event comes out. A
//! chunk that carries the escape byte and more bytes in the same read skips
//! the disambiguation path entirely.

use vstd::prelude::*;

use crate::decode::{
    stream_events, stream_rest, plain_key, Decoder, Event, KeyCode,
};

verus! {

/// The standalone-escape key event.
pub open spec fn esc_event() -> Event {
    plain_key(KeyCode::Esc)
}

/// True when a chunk takes the disambiguation path: nothing pending from
/// before, nothing buffered, and the read delivered exactly one escape byte.
pub open spec fn arms_timer(pending: bool, buffered: Seq<u8>, chunk: Seq<u8>) -> bool {
    !pending && buffered.len() == 0 && chunk == seq![0x1bu8]
}

/// The bytes handed to the decoder when a chunk does not arm the timer: the
/// held-back escape byte, if any, in front of the new bytes.
pub open spec fn fed_bytes(pending: bool, buffered: Seq<u8>, chunk: Seq<u8>) -> Seq<u8> {
    if pending {
        buffered + seq![0x1bu8] + chunk
    } else {
        buffered + chunk
    }
}

/// The events a chunk yields: none while the timer is being armed,
/// otherwise whatever the byte stream with the held-back escape byte
/// decodes to.
pub open spec fn bytes_events(pending: bool, buffered: Seq<u8>, chunk: Seq<u8>) -> Seq<Event> {
    if arms_timer(pending, buffered, chunk) {
        Seq::empty()
    } else {
        stream_events(fed_bytes(pending, buffered, chunk))
    }
}

/// Whether an escape byte is held back after a chunk.
pub open spec fn pending_after(pending: bool, buffered: Seq<u8>, chunk: Seq<u8>) -> bool {
    arms_timer(pending, buffered, chunk)
}

/// The bytes buffered after a chunk.
pub open spec fn buffered_after(pending: bool, buffered: Seq<u8>, chunk: Seq<u8>) -> Seq<u8> {
    if arms_timer(pending, buffered, chunk) {
        buffered
    } else {
        stream_rest(fed_bytes(pending, buffered, chunk))
    }
}

/// The events the timer firing yields: exactly one standalone escape when
/// one was held back, nothing for a stale firing.
pub open spec fn timeout_events(pending: bool) -> Seq<Event> {
    if pending {
        seq![esc_event()]
    } else {
        Seq::empty()
    }
}

/// The decoder plus the one-shot escape timer state. The timer itself lives
/// with the caller; this type only decides when to arm it and what its
/// firing means.
pub struct Disambiguator {
    dec: Decoder,
    pending: bool,
}

impl Disambiguator {
    /// Whether an escape byte is currently held back (the timer is armed).
    pub closed spec fn is_pending(&self) -> bool {
        self.pending
    }

    /// The bytes the wrapped decoder has buffered.
    pub closed spec fn buffered(&self) -> Seq<u8> {
        self.dec.pending()
    }

    /// A held-back escape byte never coexists with buffered bytes, and the
    /// decoder never buffers a complete token.
    pub closed spec fn wf(&self) -> bool {
        &&& self.dec.wf()
        &&& (self.is_pending() ==> self.buffered().len() == 0)
    }

    /// Whether an escape byte is held back, as a runtime value.
    pub fn armed(&self) -> (r: bool)
        ensures
            r == self.is_pending(),
    {
        self.pending
    }

    /// A fresh disambiguator: idle, nothing buffered, timer unarmed.
    pub fn new() -> (r: Disambiguator)
        ensures
            r.wf(),
            !r.is_pending(),
            r.buffered() == Seq::<u8>::empty(),
    {
        Disambiguator { dec: Decoder::new(), pending: false }
    }

    /// Feed one read's bytes. Returns the decoded events in arrival order
    /// and whether the caller must arm the escape timer. Any bytes disarm
    /// an armed timer; the held escape byte goes to the decoder in front of
    /// them.
    pub fn on_bytes(&mut self, chunk: &[u8]) -> (r: (Vec<Event>, bool))
        requires
            old(self).wf(),
        ensures
            final(self).wf(),
            r.0@ == bytes_events(old(self).is_pending(), old(self).buffered(), chunk@),
            r.1 == arms_timer(old(self).is_pending(), old(self).buffered(), chunk@),
            final(self).is_pending() == pending_after(
                old(self).is_pending(),
                old(self).buffered(),
                chunk@,
            ),
            final(self).buffered() == buffered_after(
                old(self).is_pending(),
                old(self).buffered(),
                chunk@,
            ),
    {
        if !self.pending && self.dec.is_empty() && chunk.len() == 1 && chunk[0] == 0x1b {
            assert(chunk@ =~= seq![0x1bu8]);
            self.pending = true;
            (Vec::new(), true)
        } else {
            proof {
                assert(!arms_timer(old(self).is_pending(), old(self).buffered(), chunk@));
            }
            let was_pending = self.pending;
            self.pending = false;
            let events: Vec<Event>;
            if was_pending {
                let mut fed: Vec<u8> = Vec::new();
                fed.push(0x1b);
                fed.extend_from_slice(chunk);
                assert(fed@ =~= seq![0x1bu8] + chunk@);
                events = self.dec.advance(fed.as_slice());
                proof {
                    assert(old(self).buffered().len() == 0);
                    assert(old(self).buffered() + seq![0x1bu8] + chunk@ =~= seq![0x1bu8]
                        + chunk@);
                    assert(old(self).buffered() + fed@ =~= seq![0x1bu8] + chunk@);
                }
            } else {
                events = self.dec.advance(chunk);
            }
            (events, false)
        }
    }

    /// The escape timer fired. Exactly one standalone-escape event comes
    /// out when an escape byte was held back; a stale firing yields nothing.
    pub fn on_timeout(&mut self) -> (events: Vec<Event>)
        requires
            old(self).wf(),
        ensures
            final(self).wf(),
            events@ == timeout_events(old(self).is_pending()),
            !final(self).is_pending(),
            final(self).buffered() == old(self).buffered(),
    {
        if self.pending {
            self.pending = false;
            let mut events: Vec<Event> = Vec::new();
            events.push(Event::Key(
                crate::decode::KeyEvent {
                    code: KeyCode::Esc,
                    modifiers: crate::decode::KeyModifiers { ctrl: false, alt: false, shift: false },
                },
            ));
            assert(events@ =~= seq![esc_event()]);
            events
        } else {
            Vec::new()
        }
    }
}

/// A single escape byte with no follow-up: the chunk arms the timer and
/// yields nothing, and the timer firing then yields exactly one
/// standalone-escape event and nothing else.
pub proof fn lemma_lone_escape_times_out()
    ensures
        arms_timer(false, Seq::empty(), seq![0x1bu8]),
        bytes_events(false, Seq::empty(), seq![0x1bu8]) == Seq::<Event>::empty(),
        pending_after(false, Seq::empty(), seq![0x1bu8]),
        timeout_events(true) == seq![esc_event()],
        timeout_events(false) == Seq::<Event>::empty(),
{
}

/// The same escape byte followed by `[A` before the timer fires: the second
/// chunk disarms the timer and yields exactly one up-arrow key event, no
/// standalone escape, and nothing stays buffered.
pub proof fn lemma_escape_sequence_before_timeout()
    ensures
        bytes_events(true, Seq::empty(), seq![0x5bu8, 0x41u8]) == seq![
            plain_key(KeyCode::Up),
        ],
        !pending_after(true, Seq::empty(), seq![0x5bu8, 0x41u8]),
        buffered_after(true, Seq::empty(), seq![0x5bu8, 0x41u8]) == Seq::<u8>::empty(),
        timeout_events(false) == Seq::<Event>::empty(),
{
    let s = seq![0x1bu8, 0x5bu8, 0x41u8];
    assert(fed_bytes(true, Seq::empty(), seq![0x5bu8, 0x41u8]) =~= s);
    assert(crate::decode::csi_end(s, 2) == 2);
    assert(s.subrange(2, 2) =~= Seq::<u8>::empty());
    assert(crate::decode::param_run(s.subrange(2, 2)) == crate::decode::param_init());
    assert(crate::decode::parse_params(s.subrange(2, 2)) == Some(Seq::<u32>::empty()));
    assert(crate::decode::scan(s).0 == 3);
    assert(crate::decode::scan(s).1 == Some(plain_key(KeyCode::Up)));
    assert(s.skip(3) =~= Seq::<u8>::empty());
    assert(stream_events(s.skip(3)) =~= Seq::<Event>::empty());
    assert(stream_events(s) =~= seq![plain_key(KeyCode::Up)]);
    assert(stream_rest(s.skip(3)) =~= Seq::<u8>::empty());
    assert(stream_rest(s) =~= Seq::<u8>::empty());
}

} // verus!
