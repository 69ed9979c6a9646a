//! The check of the token that a connection shows.

use vstd::prelude::*;
use vstd::utf8::encode_utf8_decode_utf8;

verus! {

/// Whether `provided` is the token that is expected. An empty token is never right. The bytes are
/// compared to the end, whether or not a difference has been found.
pub fn validate_token(expected: &str, provided: &str) -> (r: bool)
    ensures
        r == (expected@.len() > 0 && expected@ == provided@),
{
    if expected.is_empty() || provided.is_empty() {
        return false;
    }
    let a = expected.as_bytes();
    let b = provided.as_bytes();
    proof {
        encode_utf8_decode_utf8(expected@);
        encode_utf8_decode_utf8(provided@);
    }
    if a.len() != b.len() {
        return false;
    }
    let mut diff: u8 = 0;
    let mut i: usize = 0;
    while i < a.len()
        invariant
            a@.len() == b@.len(),
            i <= a@.len(),
            diff == 0 <==> forall|j: int| 0 <= j < i ==> a@[j] == b@[j],
        decreases a@.len() - i,
    {
        let x: u8 = a[i];
        let y: u8 = b[i];
        assert((diff | (x ^ y)) == 0 <==> diff == 0 && x == y) by (bit_vector);
        diff = diff | (x ^ y);
        i += 1;
    }
    assert(diff == 0 <==> a@ =~= b@);
    diff == 0
}

} // verus!
