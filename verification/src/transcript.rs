//! Well-formedness of transcript lines. Every line the library produces —
//! rendered data lines and lifecycle markers — is one complete line: it ends
//! in exactly one newline and holds no newline before it. The shared sink
//! then only ever appends whole lines.

use crate::encoder;
use crate::encoder::Direction;
use crate::encoder::NL;
use crate::hexfmt;
use crate::marker;
use crate::relay;
use crate::utf8;
use vstd::prelude::*;

verus! {

/// A byte run holds a newline at most as its very last byte. This is the
/// shape of every raw line a relay flushes: a newline-terminated line, or a
/// trailing fragment with no newline at all.
pub open spec fn line_shaped(b: Seq<u8>) -> bool {
    forall|i: int| 0 <= i < b.len() && b[i] == NL ==> i == b.len() - 1
}

/// One complete transcript line: nonempty, terminated by a newline, with no
/// newline anywhere before it.
pub open spec fn complete_line(l: Seq<u8>) -> bool {
    &&& l.len() > 0
    &&& l.last() == NL
    &&& forall|i: int| 0 <= i < l.len() - 1 ==> l[i] != NL
}

/// Trimming a line-shaped run leaves no newline at all.
pub proof fn lemma_trim_line_shaped(b: Seq<u8>)
    requires
        line_shaped(b),
    ensures
        forall|i: int| 0 <= i < encoder::trim_newlines(b).len() ==> encoder::trim_newlines(b)[i]
            != NL,
    decreases b.len(),
{
    let t = encoder::trim_newlines(b);
    if b.len() > 0 && b.last() == NL {
        assert(line_shaped(b.drop_last()));
        lemma_trim_line_shaped(b.drop_last());
        assert(t == encoder::trim_newlines(b.drop_last()));
    } else {
        assert(t == b);
        assert forall|i: int| 0 <= i < t.len() implies t[i] != NL by {
            assert(b[i] == NL ==> i == b.len() - 1);
        }
    }
}

/// A rendered data line is one complete line, whichever branch the encoder
/// took, provided the input was line-shaped.
pub proof fn lemma_render_complete(d: Direction, b: Seq<u8>)
    requires
        line_shaped(b),
    ensures
        complete_line(encoder::render_spec(d, b)),
{
    let r = encoder::render_spec(d, b);
    match d {
        Direction::Inbound => assert(encoder::tag_spec(d).len() == 2),
        Direction::Outbound => assert(encoder::tag_spec(d).len() == 2),
    }
    assert(encoder::tag_spec(d)[0] != NL && encoder::tag_spec(d)[1] != NL);
    if utf8::is_utf8(b) {
        let t = encoder::trim_newlines(b);
        lemma_trim_line_shaped(b);
        assert(r.len() == 6 + t.len());
        assert(r.last() == NL);
        assert forall|i: int| 0 <= i < r.len() - 1 implies r[i] != NL by {
            if i < 2 {
                assert(r[i] == encoder::tag_spec(d)[i]);
            } else if i < 4 {
                assert(r[i] == seq![0x20u8, 0x22u8][i - 2]);
            } else if i < 4 + t.len() {
                assert(r[i] == t[i - 4]);
            } else {
                assert(r[i] == seq![0x22u8, NL][i - 4 - t.len()]);
            }
        }
    } else {
        let h = hexfmt::hex_seq(b);
        hexfmt::lemma_hex_seq_no_newline(b);
        assert(r.len() == 6 + h.len());
        assert(r.last() == NL);
        assert forall|i: int| 0 <= i < r.len() - 1 implies r[i] != NL by {
            if i < 2 {
                assert(r[i] == encoder::tag_spec(d)[i]);
            } else if i < 5 {
                assert(r[i] == seq![0x20u8, 0x30u8, 0x78u8][i - 2]);
            } else {
                assert(r[i] == h[i - 5]);
            }
        }
    }
}

/// The open fragment of a stream never holds a newline.
pub proof fn lemma_frag_no_newline(s: Seq<u8>)
    ensures
        forall|i: int| 0 <= i < relay::frag(s).len() ==> relay::frag(s)[i] != NL,
    decreases s.len(),
{
    let f = relay::frag(s);
    if s.len() > 0 && s.last() != NL {
        lemma_frag_no_newline(s.drop_last());
        let fp = relay::frag(s.drop_last());
        assert(f == fp.push(s.last()));
        assert forall|i: int| 0 <= i < f.len() implies f[i] != NL by {
            if i < fp.len() {
                assert(f[i] == fp[i]);
            } else {
                assert(f[i] == s.last());
            }
        }
    }
}

/// Every raw line a stream splits into is line-shaped, and the
/// newline-terminated ones are complete lines.
pub proof fn lemma_split_lines_shaped(s: Seq<u8>)
    ensures
        forall|j: int| 0 <= j < relay::complete_lines(s).len() ==> complete_line(
            #[trigger] relay::complete_lines(s)[j],
        ),
        forall|j: int| 0 <= j < relay::all_lines(s).len() ==> line_shaped(
            #[trigger] relay::all_lines(s)[j],
        ),
    decreases s.len(),
{
    if s.len() == 0 {
    } else if s.last() == NL {
        lemma_split_lines_shaped(s.drop_last());
        lemma_frag_no_newline(s.drop_last());
        let l = relay::frag(s.drop_last()).push(NL);
        assert(complete_line(l));
        assert(relay::complete_lines(s) == relay::complete_lines(s.drop_last()).push(l));
        assert forall|j: int| 0 <= j < relay::complete_lines(s).len() implies complete_line(
            #[trigger] relay::complete_lines(s)[j],
        ) by {
            if j < relay::complete_lines(s.drop_last()).len() {
                assert(relay::complete_lines(s)[j] == relay::complete_lines(s.drop_last())[j]);
            }
        }
        assert(relay::frag(s).len() == 0);
        assert forall|j: int| 0 <= j < relay::all_lines(s).len() implies line_shaped(
            #[trigger] relay::all_lines(s)[j],
        ) by {
            assert(complete_line(relay::all_lines(s)[j]));
        }
    } else {
        lemma_split_lines_shaped(s.drop_last());
        lemma_frag_no_newline(s);
        assert(relay::complete_lines(s) == relay::complete_lines(s.drop_last()));
        assert forall|j: int| 0 <= j < relay::all_lines(s).len() implies line_shaped(
            #[trigger] relay::all_lines(s)[j],
        ) by {
            if j < relay::complete_lines(s).len() {
                assert(relay::all_lines(s)[j] == relay::complete_lines(s)[j]);
                assert(complete_line(relay::complete_lines(s)[j]));
            } else {
                assert(relay::all_lines(s)[j] == relay::frag(s));
            }
        }
    }
}

/// Mutual-exclusion soundness on the library's side: every transcript line a
/// relay has flushed renders as one complete, well-formed line, so a sink
/// that appends each returned line atomically never interleaves partial
/// lines.
pub proof fn lemma_relay_lines_wellformed(r: relay::Relay, j: int)
    requires
        r.wf(),
        0 <= j < r.flushed@.len(),
    ensures
        line_shaped(r.flushed@[j]),
        complete_line(encoder::render_spec(r.direction, r.flushed@[j])),
{
    lemma_split_lines_shaped(r.history@);
    if !r.reading_done {
        assert(r.flushed@[j] == relay::complete_lines(r.history@)[j]);
        assert(relay::all_lines(r.history@)[j] == relay::complete_lines(r.history@)[j]);
    }
    assert(line_shaped(r.flushed@[j]));
    lemma_render_complete(r.direction, r.flushed@[j]);
}

/// The decimal digits of a number are digit characters, never a newline.
pub proof fn lemma_dec_rep_digits(n: nat)
    ensures
        forall|i: int| 0 <= i < marker::dec_rep(n).len() ==> 0x30 <= #[trigger] marker::dec_rep(
            n,
        )[i] <= 0x39,
    decreases n,
{
    let r = marker::dec_rep(n);
    if n >= 10 {
        lemma_dec_rep_digits(n / 10);
        let rp = marker::dec_rep(n / 10);
        assert(r == rp.push((0x30 + n % 10) as u8));
        assert forall|i: int| 0 <= i < r.len() implies 0x30 <= #[trigger] r[i] <= 0x39 by {
            if i < rp.len() {
                assert(r[i] == rp[i]);
            } else {
                assert(r[i] == (0x30 + n % 10) as u8);
            }
        }
    }
}

/// The final status marker is one complete line.
pub proof fn lemma_status_marker_complete(s: marker::SessionStatus)
    ensures
        complete_line(marker::status_marker_spec(s)),
{
    let r = marker::status_marker_spec(s);
    let p = marker::terminated_prefix_spec();
    let t = marker::status_text_spec(s);
    assert forall|i: int| 0 <= i < t.len() implies t[i] != NL by {
        match s {
            marker::SessionStatus::Exited(c) => {
                lemma_dec_rep_digits(c as nat);
                lemma_dec_rep_digits((-(c as int)) as nat);
            },
            marker::SessionStatus::Signaled(n) => {
                lemma_dec_rep_digits(n as nat);
                lemma_dec_rep_digits((-(n as int)) as nat);
                let sig = seq![0x73u8, 0x69u8, 0x67u8, 0x6Eu8, 0x61u8, 0x6Cu8, 0x20u8];
                if i < sig.len() {
                    assert(t[i] == sig[i]);
                } else {
                    assert(t[i] == marker::int_rep(n as int)[i - sig.len()]);
                }
            },
        }
    }
    assert(r.last() == NL);
    assert forall|i: int| 0 <= i < r.len() - 1 implies r[i] != NL by {
        if i < p.len() {
            assert(r[i] == p[i]);
        } else {
            assert(r[i] == t[i - p.len()]);
        }
    }
}

/// The first-byte marker is one complete line whenever the timestamp holds
/// no newline.
pub proof fn lemma_first_byte_marker_complete(time: Seq<u8>)
    requires
        forall|i: int| 0 <= i < time.len() ==> time[i] != NL,
    ensures
        complete_line(marker::first_byte_marker_spec(time)),
{
    let r = marker::first_byte_marker_spec(time);
    let p = marker::first_byte_prefix_spec();
    assert(r.last() == NL);
    assert forall|i: int| 0 <= i < r.len() - 1 implies r[i] != NL by {
        if i < p.len() {
            assert(r[i] == p[i]);
        } else {
            assert(r[i] == time[i - p.len()]);
        }
    }
}

/// The closing markers are complete lines.
pub proof fn lemma_closed_marker_complete(d: Direction)
    ensures
        complete_line(marker::closed_marker_spec(d)),
{
}

/// Dual rendering: a line-shaped byte run renders either as its own bytes
/// quoted, with no newline left inside, or as a hex fallback from which
/// decoding recovers the run exactly.
pub proof fn lemma_render_dual(d: Direction, b: Seq<u8>)
    requires
        line_shaped(b),
    ensures
        utf8::is_utf8(b) ==> encoder::render_spec(d, b) == encoder::tag_spec(d) + seq![
            0x20u8, 0x22u8,
        ] + encoder::trim_newlines(b) + seq![0x22u8, NL],
        utf8::is_utf8(b) ==> forall|i: int| 0 <= i < encoder::trim_newlines(b).len()
            ==> encoder::trim_newlines(b)[i] != NL,
        !utf8::is_utf8(b) ==> encoder::render_spec(d, b) == encoder::tag_spec(d) + seq![
            0x20u8, 0x30u8, 0x78u8,
        ] + hexfmt::hex_seq(b) + seq![NL],
        !utf8::is_utf8(b) ==> hexfmt::hex_decode(hexfmt::hex_seq(b)) == b,
{
    lemma_trim_line_shaped(b);
    hexfmt::lemma_hex_round_trip(b);
}

} // verus!
