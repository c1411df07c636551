//! The transcript's lifecycle marker lines: the first-byte timestamp, the
//! per-direction closing markers, and the final exit-status line, together
//! with a verified decimal rendering of the status.

use crate::encoder::Direction;
use crate::encoder::NL;
use vstd::prelude::*;

verus! {

/// `** First byte read at ` — the bytes before the timestamp in the marker
/// written when the operator's first byte arrives.
pub open spec fn first_byte_prefix_spec() -> Seq<u8> {
    seq![
        0x2Au8, 0x2Au8, 0x20u8, 0x46u8, 0x69u8, 0x72u8, 0x73u8, 0x74u8, 0x20u8, 0x62u8, 0x79u8,
        0x74u8, 0x65u8, 0x20u8, 0x72u8, 0x65u8, 0x61u8, 0x64u8, 0x20u8, 0x61u8, 0x74u8, 0x20u8,
    ]
}

/// `** closed input` / `** closed output` with the terminating newline: the
/// marker a relay leaves when its stream has ended.
pub open spec fn closed_marker_spec(d: Direction) -> Seq<u8> {
    match d {
        Direction::Inbound => seq![
            0x2Au8, 0x2Au8, 0x20u8, 0x63u8, 0x6Cu8, 0x6Fu8, 0x73u8, 0x65u8, 0x64u8, 0x20u8,
            0x69u8, 0x6Eu8, 0x70u8, 0x75u8, 0x74u8, NL,
        ],
        Direction::Outbound => seq![
            0x2Au8, 0x2Au8, 0x20u8, 0x63u8, 0x6Cu8, 0x6Fu8, 0x73u8, 0x65u8, 0x64u8, 0x20u8,
            0x6Fu8, 0x75u8, 0x74u8, 0x70u8, 0x75u8, 0x74u8, NL,
        ],
    }
}

/// `** Terminated with status ` — the bytes before the status in the final
/// marker line.
pub open spec fn terminated_prefix_spec() -> Seq<u8> {
    seq![
        0x2Au8, 0x2Au8, 0x20u8, 0x54u8, 0x65u8, 0x72u8, 0x6Du8, 0x69u8, 0x6Eu8, 0x61u8, 0x74u8,
        0x65u8, 0x64u8, 0x20u8, 0x77u8, 0x69u8, 0x74u8, 0x68u8, 0x20u8, 0x73u8, 0x74u8, 0x61u8,
        0x74u8, 0x75u8, 0x73u8, 0x20u8,
    ]
}

/// How the child ended: with an exit code, or killed by a signal.
#[derive(Clone, Copy, PartialEq, Eq, Structural, Debug)]
pub enum SessionStatus {
    /// The child exited with this code.
    Exited(i32),
    /// The child was terminated by this signal.
    Signaled(i32),
}

/// The decimal digit characters of a natural number, most significant first.
pub open spec fn dec_rep(n: nat) -> Seq<u8>
    decreases n,
{
    if n < 10 {
        seq![(0x30 + n) as u8]
    } else {
        dec_rep(n / 10).push((0x30 + n % 10) as u8)
    }
}

/// The decimal rendering of an integer, with a leading minus sign when
/// negative.
pub open spec fn int_rep(n: int) -> Seq<u8> {
    if n < 0 {
        seq![0x2Du8] + dec_rep((-n) as nat)
    } else {
        dec_rep(n as nat)
    }
}

/// The status as it appears in the final marker: the exit code's decimal
/// digits, or `signal ` followed by the signal number.
pub open spec fn status_text_spec(s: SessionStatus) -> Seq<u8> {
    match s {
        SessionStatus::Exited(c) => int_rep(c as int),
        SessionStatus::Signaled(n) => seq![
            0x73u8, 0x69u8, 0x67u8, 0x6Eu8, 0x61u8, 0x6Cu8, 0x20u8,
        ] + int_rep(n as int),
    }
}

/// The complete final marker line for a session status.
pub open spec fn status_marker_spec(s: SessionStatus) -> Seq<u8> {
    terminated_prefix_spec() + status_text_spec(s) + seq![NL]
}

/// The complete first-byte marker line around a timestamp.
pub open spec fn first_byte_marker_spec(time: Seq<u8>) -> Seq<u8> {
    first_byte_prefix_spec() + time + seq![NL]
}

/// Appends every byte of `src` to `dst`, in order.
fn append_bytes(dst: &mut Vec<u8>, src: &Vec<u8>)
    ensures
        final(dst)@ == old(dst)@ + src@,
{
    let mut j: usize = 0;
    proof {
        assert(dst@ =~= old(dst)@ + src@.take(0));
    }
    while j < src.len()
        invariant
            j <= src.len(),
            dst@ == old(dst)@ + src@.take(j as int),
        decreases src.len() - j,
    {
        dst.push(src[j]);
        proof {
            assert(src@.take(j + 1) =~= src@.take(j as int).push(src@[j as int]));
            assert(dst@ =~= old(dst)@ + src@.take(j + 1));
        }
        j = j + 1;
    }
    proof {
        assert(src@.take(src@.len() as int) =~= src@);
    }
}

/// The decimal digits of a natural number, most significant first.
fn fmt_u64(n: u64) -> (r: Vec<u8>)
    ensures
        r@ == dec_rep(n as nat),
    decreases n,
{
    if n < 10 {
        let mut r: Vec<u8> = Vec::new();
        r.push(0x30 + (n as u8));
        proof {
            assert(r@ =~= dec_rep(n as nat));
        }
        r
    } else {
        let mut r = fmt_u64(n / 10);
        r.push(0x30 + ((n % 10) as u8));
        proof {
            assert(r@ =~= dec_rep(n as nat));
        }
        r
    }
}

/// The decimal rendering of an integer, minus sign included.
fn fmt_i64(n: i64) -> (r: Vec<u8>)
    requires
        n > i64::MIN,
    ensures
        r@ == int_rep(n as int),
{
    if n < 0 {
        let mut r: Vec<u8> = Vec::new();
        r.push(0x2D);
        let digits = fmt_u64((-n) as u64);
        append_bytes(&mut r, &digits);
        proof {
            assert(r@ =~= int_rep(n as int));
        }
        r
    } else {
        fmt_u64(n as u64)
    }
}

/// Builds the first-byte marker line around a timestamp.
pub fn first_byte_marker(time: &Vec<u8>) -> (r: Vec<u8>)
    ensures
        r@ == first_byte_marker_spec(time@),
{
    let mut r: Vec<u8> = Vec::new();
    r.push(0x2A);
    r.push(0x2A);
    r.push(0x20);
    r.push(0x46);
    r.push(0x69);
    r.push(0x72);
    r.push(0x73);
    r.push(0x74);
    r.push(0x20);
    r.push(0x62);
    r.push(0x79);
    r.push(0x74);
    r.push(0x65);
    r.push(0x20);
    r.push(0x72);
    r.push(0x65);
    r.push(0x61);
    r.push(0x64);
    r.push(0x20);
    r.push(0x61);
    r.push(0x74);
    r.push(0x20);
    proof {
        assert(r@ =~= first_byte_prefix_spec());
    }
    append_bytes(&mut r, time);
    r.push(NL);
    proof {
        assert(r@ =~= first_byte_marker_spec(time@));
    }
    r
}

/// Builds the first-byte marker line around the wall-clock time now: the
/// result wraps some nonempty, newline-free timestamp.
pub fn first_byte_marker_now() -> (r: Vec<u8>)
    ensures
        exists|t: Seq<u8>|
            r@ == first_byte_marker_spec(t) && t.len() > 0 && (forall|i: int|
                0 <= i < t.len() ==> t[i] != NL),
{
    let time = crate::clock::now_rfc2822();
    let r = first_byte_marker(&time);
    proof {
        assert(r@ == first_byte_marker_spec(time@));
    }
    r
}

/// Builds the closing marker line for one direction.
pub fn closed_marker(d: Direction) -> (r: Vec<u8>)
    ensures
        r@ == closed_marker_spec(d),
{
    let mut r: Vec<u8> = Vec::new();
    r.push(0x2A);
    r.push(0x2A);
    r.push(0x20);
    r.push(0x63);
    r.push(0x6C);
    r.push(0x6F);
    r.push(0x73);
    r.push(0x65);
    r.push(0x64);
    r.push(0x20);
    match d {
        Direction::Inbound => {
            r.push(0x69);
            r.push(0x6E);
            r.push(0x70);
            r.push(0x75);
            r.push(0x74);
        },
        Direction::Outbound => {
            r.push(0x6F);
            r.push(0x75);
            r.push(0x74);
            r.push(0x70);
            r.push(0x75);
            r.push(0x74);
        },
    }
    r.push(NL);
    proof {
        assert(r@ =~= closed_marker_spec(d));
    }
    r
}

/// Builds the final marker line recording how the child ended.
pub fn status_marker(s: SessionStatus) -> (r: Vec<u8>)
    ensures
        r@ == status_marker_spec(s),
{
    let mut r: Vec<u8> = Vec::new();
    r.push(0x2A);
    r.push(0x2A);
    r.push(0x20);
    r.push(0x54);
    r.push(0x65);
    r.push(0x72);
    r.push(0x6D);
    r.push(0x69);
    r.push(0x6E);
    r.push(0x61);
    r.push(0x74);
    r.push(0x65);
    r.push(0x64);
    r.push(0x20);
    r.push(0x77);
    r.push(0x69);
    r.push(0x74);
    r.push(0x68);
    r.push(0x20);
    r.push(0x73);
    r.push(0x74);
    r.push(0x61);
    r.push(0x74);
    r.push(0x75);
    r.push(0x73);
    r.push(0x20);
    proof {
        assert(r@ =~= terminated_prefix_spec());
    }
    match s {
        SessionStatus::Exited(c) => {
            let digits = fmt_i64(c as i64);
            append_bytes(&mut r, &digits);
        },
        SessionStatus::Signaled(n) => {
            r.push(0x73);
            r.push(0x69);
            r.push(0x67);
            r.push(0x6E);
            r.push(0x61);
            r.push(0x6C);
            r.push(0x20);
            let digits = fmt_i64(n as i64);
            append_bytes(&mut r, &digits);
        },
    }
    r.push(NL);
    proof {
        assert(r@ =~= status_marker_spec(s));
    }
    r
}

} // verus!
