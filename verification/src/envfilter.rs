//! The allow-list of environment variables that may be passed on to the
//! supervised child process: the terminal type, the search path, and the
//! locale family.

use vstd::prelude::*;

verus! {

/// An environment variable key (as raw bytes) is allowed through to the
/// child exactly when it is `TERM`, `LANG`, `PATH`, or starts with `LC_`.
pub open spec fn env_key_allowed_spec(k: Seq<u8>) -> bool {
    ||| k == seq![0x54u8, 0x45u8, 0x52u8, 0x4Du8]
    ||| k == seq![0x4Cu8, 0x41u8, 0x4Eu8, 0x47u8]
    ||| k == seq![0x50u8, 0x41u8, 0x54u8, 0x48u8]
    ||| (k.len() >= 3 && k[0] == 0x4Cu8 && k[1] == 0x43u8 && k[2] == 0x5Fu8)
}

/// Decides whether an environment variable key belongs to the minimal
/// environment handed to the child process.
pub fn env_key_allowed(key: &Vec<u8>) -> (r: bool)
    ensures
        r == env_key_allowed_spec(key@),
{
    if key.len() == 4 {
        let b0 = key[0];
        let b1 = key[1];
        let b2 = key[2];
        let b3 = key[3];
        let term = b0 == 0x54 && b1 == 0x45 && b2 == 0x52 && b3 == 0x4D;
        let lang = b0 == 0x4C && b1 == 0x41 && b2 == 0x4E && b3 == 0x47;
        let path = b0 == 0x50 && b1 == 0x41 && b2 == 0x54 && b3 == 0x48;
        proof {
            if term {
                assert(key@ =~= seq![0x54u8, 0x45u8, 0x52u8, 0x4Du8]);
            }
            if lang {
                assert(key@ =~= seq![0x4Cu8, 0x41u8, 0x4Eu8, 0x47u8]);
            }
            if path {
                assert(key@ =~= seq![0x50u8, 0x41u8, 0x54u8, 0x48u8]);
            }
        }
        if term || lang || path {
            return true;
        }
    }
    key.len() >= 3 && key[0] == 0x4C && key[1] == 0x43 && key[2] == 0x5F
}

} // verus!
