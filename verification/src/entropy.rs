//! Fresh randomness for labels, nonces and seeds.

use vstd::prelude::*;

verus! {

/// Calls `rand::random` for one byte. Nothing is known of the byte.
#[verifier::external_body]
pub(crate) fn random_byte() -> u8 {
    rand::random()
}

/// Twelve fresh random bytes.
pub(crate) fn random12() -> [u8; 12] {
    let mut a = [0u8; 12];
    let mut i: usize = 0;
    while i < 12
        invariant
            i <= 12,
        decreases 12 - i,
    {
        a[i] = random_byte();
        i += 1;
    }
    a
}

/// Sixteen fresh random bytes.
pub(crate) fn random16() -> [u8; 16] {
    let mut a = [0u8; 16];
    let mut i: usize = 0;
    while i < 16
        invariant
            i <= 16,
        decreases 16 - i,
    {
        a[i] = random_byte();
        i += 1;
    }
    a
}

/// Thirty-two fresh random bytes.
pub(crate) fn random32() -> [u8; 32] {
    let mut a = [0u8; 32];
    let mut i: usize = 0;
    while i < 32
        invariant
            i <= 32,
        decreases 32 - i,
    {
        a[i] = random_byte();
        i += 1;
    }
    a
}

} // verus!
