//! Lowercase hexadecimal rendering of byte runs, used as the fallback when a
//! transcript line is not valid text, together with its decoding inverse.

use vstd::prelude::*;

verus! {

/// The lowercase hex digit character for a value below 16.
pub open spec fn hex_digit(n: u8) -> u8
    recommends
        n < 16,
{
    if n < 10 {
        (0x30 + n) as u8
    } else {
        (0x57 + n) as u8
    }
}

/// The two lowercase hex digits of one byte, high digit first.
pub open spec fn hex_pair(b: u8) -> Seq<u8> {
    seq![hex_digit(b / 16), hex_digit(b % 16)]
}

/// The lowercase hex rendering of a byte run: two digits per byte, in order.
pub open spec fn hex_seq(s: Seq<u8>) -> Seq<u8>
    decreases s.len(),
{
    if s.len() == 0 {
        Seq::empty()
    } else {
        hex_seq(s.drop_last()) + hex_pair(s.last())
    }
}

/// The value of one lowercase hex digit character.
pub open spec fn unhex_digit(c: u8) -> u8
    recommends
        0x30 <= c <= 0x39 || 0x61 <= c <= 0x66,
{
    if 0x30 <= c && c <= 0x39 {
        (c - 0x30) as u8
    } else {
        (c - 0x57) as u8
    }
}

/// The byte encoded by two lowercase hex digit characters.
pub open spec fn unhex_pair(hi: u8, lo: u8) -> u8 {
    (unhex_digit(hi) * 16 + unhex_digit(lo)) as u8
}

/// Decodes a run of hex digit characters back to bytes, two digits per byte.
pub open spec fn hex_decode(s: Seq<u8>) -> Seq<u8>
    recommends
        s.len() % 2 == 0,
    decreases s.len(),
{
    if s.len() < 2 {
        Seq::empty()
    } else {
        hex_decode(s.drop_last().drop_last()).push(
            unhex_pair(s[s.len() - 2], s[s.len() - 1]),
        )
    }
}

/// Hex digit characters are printable: in particular never a newline, and
/// decoding inverts encoding digit by digit.
pub proof fn lemma_hex_digit(n: u8)
    requires
        n < 16,
    ensures
        unhex_digit(hex_digit(n)) == n,
        0x30 <= hex_digit(n) <= 0x39 || 0x61 <= hex_digit(n) <= 0x66,
        hex_digit(n) != 0x0Au8,
{
}

/// Decoding the hex rendering of any byte run reproduces it exactly, and the
/// rendering is two digits per byte.
pub proof fn lemma_hex_round_trip(s: Seq<u8>)
    ensures
        hex_seq(s).len() == 2 * s.len(),
        hex_decode(hex_seq(s)) == s,
    decreases s.len(),
{
    if s.len() == 0 {
        assert(hex_decode(hex_seq(s)) =~= s);
    } else {
        let prefix = s.drop_last();
        let b = s.last();
        lemma_hex_round_trip(prefix);
        let h = hex_seq(s);
        assert(h == hex_seq(prefix) + hex_pair(b));
        assert(h[h.len() - 2] == hex_digit(b / 16));
        assert(h[h.len() - 1] == hex_digit(b % 16));
        assert(h.drop_last().drop_last() =~= hex_seq(prefix));
        lemma_hex_digit(b / 16);
        lemma_hex_digit(b % 16);
        assert(unhex_pair(hex_digit(b / 16), hex_digit(b % 16)) == b);
        assert(hex_decode(hex_seq(s)) =~= s);
    }
}

/// No byte of a hex rendering is a newline.
pub proof fn lemma_hex_seq_no_newline(s: Seq<u8>)
    ensures
        forall|i: int| 0 <= i < hex_seq(s).len() ==> hex_seq(s)[i] != 0x0Au8,
    decreases s.len(),
{
    if s.len() > 0 {
        lemma_hex_seq_no_newline(s.drop_last());
        lemma_hex_digit(s.last() / 16);
        lemma_hex_digit(s.last() % 16);
        let h = hex_seq(s);
        let hp = hex_seq(s.drop_last());
        assert forall|i: int| 0 <= i < h.len() implies h[i] != 0x0Au8 by {
            if i >= hp.len() {
                assert(h[i] == hex_pair(s.last())[i - hp.len()]);
            }
        }
    }
}

/// Relies on hex::encode: it renders the input as two lowercase hexadecimal
/// digits per byte, in byte order.
#[verifier::external_body]
pub(crate) fn hex_encode_bytes(b: &Vec<u8>) -> (r: Vec<u8>)
    ensures
        r@ == hex_seq(b@),
{
    hex::encode(b.as_slice()).into_bytes()
}

} // verus!
