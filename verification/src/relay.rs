//! One directional relay: it receives the bytes of its source stream one at
//! a time, has each byte forwarded to its destination, and segments the
//! stream into transcript lines flushed on every newline and once more at
//! stream end.
//!
//! The relay keeps a ghost model of the whole session: every byte it read
//! (`history`), every raw line it flushed (`flushed`), and every byte whose
//! forwarding succeeded (`forwarded`). Its well-formedness invariant ties
//! the executable buffer to that model, so line-split correctness and
//! byte-for-byte forwarding hold of every reachable relay.

use crate::encoder;
use crate::encoder::Direction;
use crate::encoder::NL;
use crate::marker;
use vstd::prelude::*;

verus! {

/// The trailing bytes of a stream after its last newline: the open fragment
/// that no flush has covered yet.
pub open spec fn frag(s: Seq<u8>) -> Seq<u8>
    decreases s.len(),
{
    if s.len() == 0 {
        Seq::empty()
    } else if s.last() == NL {
        Seq::empty()
    } else {
        frag(s.drop_last()).push(s.last())
    }
}

/// The newline-terminated lines of a stream, in order, each including its
/// final newline.
pub open spec fn complete_lines(s: Seq<u8>) -> Seq<Seq<u8>>
    decreases s.len(),
{
    if s.len() == 0 {
        Seq::empty()
    } else if s.last() == NL {
        complete_lines(s.drop_last()).push(frag(s.drop_last()).push(NL))
    } else {
        complete_lines(s.drop_last())
    }
}

/// Every line of a finished stream: the newline-terminated ones and, if the
/// stream did not end in a newline, the trailing fragment.
pub open spec fn all_lines(s: Seq<u8>) -> Seq<Seq<u8>> {
    if frag(s).len() > 0 {
        complete_lines(s).push(frag(s))
    } else {
        complete_lines(s)
    }
}

/// The lifecycle of a relay: waiting for its first byte, streaming,
/// draining after its source ended, and closed for good.
#[derive(Clone, Copy, PartialEq, Eq, Structural, Debug)]
pub enum RelayState {
    Idle,
    Streaming,
    Draining,
    Closed,
}

/// What the caller must do after handing one byte to the relay: announce
/// the session's first operator byte, append a flushed line to the
/// transcript, and forward the byte itself.
pub struct StepOutput {
    /// True exactly when this byte is the first an inbound relay has seen;
    /// the caller then records the first-byte marker before the byte's line.
    pub announce_first: bool,
    /// The rendered transcript line flushed by this byte, when it was a
    /// newline.
    pub line: Option<Vec<u8>>,
}

/// One directional relay with its ghost session model.
pub struct Relay {
    /// Which way this relay carries bytes.
    pub direction: Direction,
    /// Bytes received since the last flush; never holds a newline.
    pub buffer: Vec<u8>,
    /// Whether the first byte has been received.
    pub started: bool,
    /// Whether a received byte still awaits its forwarding outcome.
    pub pending: bool,
    /// Whether forwarding a byte failed; the relay then stops reading.
    pub faulted: bool,
    /// Whether the source has ended (or the relay gave up) and the trailing
    /// fragment has been flushed.
    pub reading_done: bool,
    /// Whether the closing marker has been produced; the relay is finished.
    pub closed: bool,
    /// Every byte read from the source, in order.
    pub history: Ghost<Seq<u8>>,
    /// Every raw line flushed to the transcript, in order.
    pub flushed: Ghost<Seq<Seq<u8>>>,
    /// Every byte whose forwarding to the destination succeeded, in order.
    pub forwarded: Ghost<Seq<u8>>,
}

impl Relay {
    /// The state of the relay's lifecycle machine.
    pub open spec fn state(self) -> RelayState {
        if self.closed {
            RelayState::Closed
        } else if self.reading_done {
            RelayState::Draining
        } else if self.started {
            RelayState::Streaming
        } else {
            RelayState::Idle
        }
    }

    /// Well-formedness: the buffer is the open fragment of the history, the
    /// flushed lines are its newline-split lines, and the forwarded bytes
    /// are the history except for a byte whose forwarding is pending or
    /// failed.
    pub open spec fn wf(self) -> bool {
        &&& if !self.reading_done {
            self.buffer@ == frag(self.history@) && self.flushed@ == complete_lines(self.history@)
        } else {
            self.buffer@.len() == 0 && self.flushed@ == all_lines(self.history@)
        }
        &&& (self.pending || self.faulted) ==> self.history@.len() > 0 && self.forwarded@
            == self.history@.drop_last()
        &&& (!self.pending && !self.faulted) ==> self.forwarded@ == self.history@
        &&& !(self.pending && self.faulted)
        &&& self.pending ==> !self.reading_done
        &&& self.closed ==> self.reading_done
        &&& self.started == (self.history@.len() > 0)
    }

    /// A fresh relay for one direction, idle with an empty model.
    pub fn new(direction: Direction) -> (r: Relay)
        ensures
            r.wf(),
            r.state() == RelayState::Idle,
            r.direction == direction,
            r.history@ =~= Seq::<u8>::empty(),
            r.flushed@ =~= Seq::<Seq<u8>>::empty(),
            r.forwarded@ =~= Seq::<u8>::empty(),
    {
        Relay {
            direction,
            buffer: Vec::new(),
            started: false,
            pending: false,
            faulted: false,
            reading_done: false,
            closed: false,
            history: Ghost(Seq::empty()),
            flushed: Ghost(Seq::empty()),
            forwarded: Ghost(Seq::empty()),
        }
    }

    /// Receives one byte from the source. The byte joins the history and the
    /// line buffer; a newline flushes the buffer as one rendered transcript
    /// line. The caller must next forward the byte and report the outcome.
    pub fn accept_byte(&mut self, b: u8) -> (out: StepOutput)
        requires
            old(self).wf(),
            !old(self).reading_done,
            !old(self).pending,
            !old(self).faulted,
        ensures
            final(self).wf(),
            final(self).state() == RelayState::Streaming,
            final(self).direction == old(self).direction,
            final(self).history@ == old(self).history@.push(b),
            final(self).forwarded@ == old(self).forwarded@,
            final(self).pending && !final(self).faulted && !final(self).reading_done && !final(self).closed,
            out.announce_first == (old(self).direction == Direction::Inbound
                && !old(self).started),
            (b == NL) == (out.line is Some),
            out.line matches Some(l) ==> l@ == encoder::render_spec(
                old(self).direction,
                old(self).buffer@.push(NL),
            ),
            final(self).flushed@ == if b == NL {
                old(self).flushed@.push(old(self).buffer@.push(NL))
            } else {
                old(self).flushed@
            },
    {
        let ghost old_hist = self.history@;
        let announce = self.direction == Direction::Inbound && !self.started;
        self.started = true;
        self.pending = true;
        proof {
            self.history@ = self.history@.push(b);
        }
        self.buffer.push(b);
        proof {
            assert(self.history@.drop_last() =~= old_hist);
        }
        let line = if b == NL {
            let l = encoder::render(self.direction, &self.buffer);
            proof {
                self.flushed@ = self.flushed@.push(self.buffer@);
            }
            self.buffer.clear();
            Some(l)
        } else {
            None
        };
        proof {
            if b != NL {
                assert(self.buffer@ =~= frag(self.history@));
            }
        }
        StepOutput { announce_first: announce, line }
    }

    /// Records that the last received byte reached the destination.
    pub fn byte_forwarded(&mut self)
        requires
            old(self).wf(),
            old(self).pending,
        ensures
            final(self).wf(),
            final(self).state() == old(self).state(),
            !final(self).pending && !final(self).faulted,
            final(self).forwarded@ == final(self).history@,
            final(self).direction == old(self).direction,
            final(self).buffer@ == old(self).buffer@,
            final(self).started == old(self).started,
            final(self).reading_done == old(self).reading_done,
            final(self).closed == old(self).closed,
            final(self).history@ == old(self).history@,
            final(self).flushed@ == old(self).flushed@,
    {
        self.pending = false;
        proof {
            self.forwarded@ = self.history@;
        }
    }

    /// Records that forwarding the last received byte failed: the relay
    /// keeps the byte in its history and transcript but gives up on the
    /// destination; the caller must stop feeding it and drain.
    pub fn forward_failed(&mut self)
        requires
            old(self).wf(),
            old(self).pending,
        ensures
            final(self).wf(),
            final(self).state() == old(self).state(),
            !final(self).pending && final(self).faulted,
            final(self).forwarded@ == old(self).forwarded@,
            final(self).forwarded@ == final(self).history@.drop_last(),
            final(self).direction == old(self).direction,
            final(self).buffer@ == old(self).buffer@,
            final(self).started == old(self).started,
            final(self).reading_done == old(self).reading_done,
            final(self).closed == old(self).closed,
            final(self).history@ == old(self).history@,
            final(self).flushed@ == old(self).flushed@,
    {
        self.pending = false;
        self.faulted = true;
    }

    /// Ends the reading phase, on source end-of-stream or after a
    /// forwarding fault: flushes the trailing, newline-unterminated
    /// fragment if there is one. Afterwards the flushed lines are exactly
    /// every line of the history.
    pub fn stop_reading(&mut self) -> (line: Option<Vec<u8>>)
        requires
            old(self).wf(),
            !old(self).reading_done,
            !old(self).pending,
        ensures
            final(self).wf(),
            final(self).state() == RelayState::Draining,
            final(self).direction == old(self).direction,
            final(self).history@ == old(self).history@,
            final(self).forwarded@ == old(self).forwarded@,
            final(self).faulted == old(self).faulted,
            final(self).started == old(self).started,
            final(self).flushed@ == all_lines(final(self).history@),
            (old(self).buffer@.len() > 0) == (line is Some),
            line matches Some(l) ==> l@ == encoder::render_spec(
                old(self).direction,
                old(self).buffer@,
            ),
    {
        self.reading_done = true;
        if self.buffer.len() > 0 {
            let l = encoder::render(self.direction, &self.buffer);
            proof {
                self.flushed@ = self.flushed@.push(self.buffer@);
            }
            self.buffer.clear();
            Some(l)
        } else {
            None
        }
    }

    /// Closes the relay and hands back its closing marker line
    /// (`** closed input` or `** closed output` by direction).
    pub fn closing_marker(&mut self) -> (r: Vec<u8>)
        requires
            old(self).wf(),
            old(self).reading_done,
            !old(self).closed,
        ensures
            final(self).wf(),
            final(self).state() == RelayState::Closed,
            r@ == marker::closed_marker_spec(old(self).direction),
            final(self).closed,
            final(self).direction == old(self).direction,
            final(self).buffer@ == old(self).buffer@,
            final(self).started == old(self).started,
            final(self).pending == old(self).pending,
            final(self).faulted == old(self).faulted,
            final(self).reading_done == old(self).reading_done,
            final(self).history@ == old(self).history@,
            final(self).flushed@ == old(self).flushed@,
            final(self).forwarded@ == old(self).forwarded@,
    {
        self.closed = true;
        marker::closed_marker(self.direction)
    }
}

/// Line-split correctness: while a relay is reading, the lines it has
/// flushed are exactly the newline-terminated lines of the bytes read so
/// far, and its buffer is the open fragment after the last newline.
pub proof fn lemma_streaming_lines(r: Relay)
    requires
        r.wf(),
        !r.reading_done,
    ensures
        r.flushed@ == complete_lines(r.history@),
        r.buffer@ == frag(r.history@),
{
}

/// Line-split correctness at stream end: once a relay has drained, it has
/// flushed exactly every line of the bytes it read — each
/// newline-terminated line once, and the trailing fragment once if the
/// stream did not end in a newline.
pub proof fn lemma_drained_lines(r: Relay)
    requires
        r.wf(),
        r.reading_done,
    ensures
        r.flushed@ == all_lines(r.history@),
{
}

/// Byte-for-byte forwarding: the forwarded bytes are always a prefix of
/// the bytes read — the exact sequence when no fault occurred and nothing
/// is pending, and truncated by exactly the failed byte after a fault.
pub proof fn lemma_forwarding_exact(r: Relay)
    requires
        r.wf(),
    ensures
        r.forwarded@ == r.history@.take(r.forwarded@.len() as int),
        !r.pending && !r.faulted ==> r.forwarded@ == r.history@,
        r.pending || r.faulted ==> r.forwarded@ == r.history@.drop_last(),
{
    if r.pending || r.faulted {
        assert(r.forwarded@ =~= r.history@.take(r.forwarded@.len() as int));
    } else {
        assert(r.forwarded@ =~= r.history@.take(r.forwarded@.len() as int));
    }
}

} // verus!

