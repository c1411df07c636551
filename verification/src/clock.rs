//! The wall-clock timestamp recorded when the operator's first byte
//! arrives.

use vstd::prelude::*;

verus! {

/// Relies on chrono's `Local::now` and `DateTime::to_rfc2822`: the current
/// local time rendered like `Tue, 1 Jul 2003 10:52:37 +0200` — a nonempty
/// run of weekday and month names, digits, spaces and punctuation that never
/// holds a newline byte. (`to_rfc2822` would panic only on a year outside
/// 0..=9999, which the local clock cannot yield.)
#[verifier::external_body]
pub(crate) fn now_rfc2822() -> (r: Vec<u8>)
    ensures
        r@.len() > 0,
        forall|i: int| 0 <= i < r@.len() ==> r@[i] != 0x0Au8,
{
    chrono::Local::now().to_rfc2822().into_bytes()
}

} // verus!
