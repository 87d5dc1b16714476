use vstd::prelude::*;

verus! {

/// Number of bytes in one password attempt.
pub const CAPACITY: usize = 7;

/// The fixed secret: the ASCII bytes of `pico123`.
pub const SECRET: [u8; 7] = [112, 105, 99, 111, 49, 50, 51];

/// Whether `window` holds exactly the secret, byte for byte.
pub fn matches_secret(window: &[u8; 7]) -> (r: bool)
    ensures
        r == (window@ == SECRET@),
{
    let mut i: usize = 0;
    while i < 7
        invariant
            i <= 7,
            forall|k: int| 0 <= k < i ==> window@[k] == SECRET@[k],
        decreases 7 - i,
    {
        if window[i] != SECRET[i] {
            return false;
        }
        i += 1;
    }
    assert(window@ =~= SECRET@);
    true
}

} // verus!
