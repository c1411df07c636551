//! The line encoder: renders one accumulated transcript line either as
//! quoted text (when the bytes are well-formed UTF-8) or as a lowercase hex
//! fallback, tagged with its direction marker.

use crate::hexfmt;
use crate::utf8;
use vstd::prelude::*;

verus! {

/// The newline byte on which the relays split the stream into lines.
pub const NL: u8 = 0x0A;

/// Which way the bytes of a transcript line were travelling.
#[derive(Clone, Copy, PartialEq, Eq, Structural, Debug)]
pub enum Direction {
    /// Operator to child; tagged `->`.
    Inbound,
    /// Child to operator; tagged `<-`.
    Outbound,
}

/// The two tag bytes of a direction: `->` for inbound, `<-` for outbound.
pub open spec fn tag_spec(d: Direction) -> Seq<u8> {
    match d {
        Direction::Inbound => seq![0x2Du8, 0x3Eu8],
        Direction::Outbound => seq![0x3Cu8, 0x2Du8],
    }
}

/// The byte run with every trailing newline removed.
pub open spec fn trim_newlines(s: Seq<u8>) -> Seq<u8>
    decreases s.len(),
{
    if s.len() > 0 && s.last() == NL {
        trim_newlines(s.drop_last())
    } else {
        s
    }
}

/// One rendered transcript line for a byte run, including its terminating
/// newline: `<tag> "<text>"` when the bytes are valid UTF-8 (judged before
/// trimming), else `<tag> 0x<lowercase hex>`.
pub open spec fn render_spec(d: Direction, b: Seq<u8>) -> Seq<u8> {
    if utf8::is_utf8(b) {
        tag_spec(d) + seq![0x20u8, 0x22u8] + trim_newlines(b) + seq![0x22u8, NL]
    } else {
        tag_spec(d) + seq![0x20u8, 0x30u8, 0x78u8] + hexfmt::hex_seq(b) + seq![NL]
    }
}

/// Renders one accumulated line as a complete transcript line.
pub fn render(d: Direction, bytes: &Vec<u8>) -> (r: Vec<u8>)
    ensures
        r@ == render_spec(d, bytes@),
{
    let mut r: Vec<u8> = Vec::new();
    match d {
        Direction::Inbound => {
            r.push(0x2D);
            r.push(0x3E);
        },
        Direction::Outbound => {
            r.push(0x3C);
            r.push(0x2D);
        },
    }
    r.push(0x20);
    assert(r@ =~= tag_spec(d) + seq![0x20u8]);
    if utf8::check_utf8(bytes) {
        r.push(0x22);
        let mut end: usize = bytes.len();
        proof {
            assert(bytes@.take(end as int) =~= bytes@);
        }
        while end > 0 && bytes[end - 1] == NL
            invariant
                end <= bytes.len(),
                trim_newlines(bytes@) == trim_newlines(bytes@.take(end as int)),
            decreases end,
        {
            proof {
                assert(bytes@.take(end as int).drop_last() =~= bytes@.take(end - 1));
            }
            end = end - 1;
        }
        proof {
            if end > 0 {
                assert(bytes@.take(end as int).last() == bytes@[end - 1]);
            }
            assert(trim_newlines(bytes@) == bytes@.take(end as int));
        }
        let mut j: usize = 0;
        while j < end
            invariant
                j <= end <= bytes.len(),
                r@ == tag_spec(d) + seq![0x20u8, 0x22u8] + bytes@.take(j as int),
            decreases end - j,
        {
            r.push(bytes[j]);
            proof {
                assert(bytes@.take(j + 1) =~= bytes@.take(j as int).push(bytes@[j as int]));
                assert(r@ =~= tag_spec(d) + seq![0x20u8, 0x22u8] + bytes@.take(j + 1));
            }
            j = j + 1;
        }
        r.push(0x22);
        r.push(NL);
        proof {
            assert(r@ =~= render_spec(d, bytes@));
        }
    } else {
        r.push(0x30);
        r.push(0x78);
        let h = hexfmt::hex_encode_bytes(bytes);
        let mut j: usize = 0;
        while j < h.len()
            invariant
                j <= h.len(),
                h@ == hexfmt::hex_seq(bytes@),
                r@ == tag_spec(d) + seq![0x20u8, 0x30u8, 0x78u8] + h@.take(j as int),
            decreases h.len() - j,
        {
            r.push(h[j]);
            proof {
                assert(h@.take(j + 1) =~= h@.take(j as int).push(h@[j as int]));
                assert(r@ =~= tag_spec(d) + seq![0x20u8, 0x30u8, 0x78u8] + h@.take(j + 1));
            }
            j = j + 1;
        }
        proof {
            assert(h@.take(h@.len() as int) =~= h@);
        }
        r.push(NL);
        proof {
            assert(r@ =~= render_spec(d, bytes@));
        }
    }
    r
}

} // verus!
