//! The form in which a public key is used: the device gives it as a point,
//! the ledger takes it compressed.

use vstd::prelude::*;

verus! {

/// The compressed key of an uncompressed one: its last 32 bytes in
/// reverse, with the highest bit of the last byte set where the byte in the
/// middle of the point is odd.
pub open spec fn compressed_key(point: Seq<u8>) -> Seq<u8> {
    Seq::new(
        32,
        |i: int|
            if i == 31 && point[32] & 1 != 0 {
                point[64 - i] | 0x80
            } else {
                point[64 - i]
            },
    )
}

/// Compresses a public key given as a point of 65 bytes.
pub fn convert_to_stellar_pk(pubkey: &[u8; 65]) -> (out: [u8; 32])
    ensures
        out@ == compressed_key(pubkey@),
{
    let mut out: [u8; 32] = [0u8; 32];
    let mut i: usize = 0;
    while i < 32
        invariant
            i <= 32,
            forall|j: int| 0 <= j < i ==> #[trigger] out@[j] == pubkey@[64 - j],
        decreases 32 - i,
    {
        out[i] = pubkey[64 - i];
        i += 1;
    }
    if (pubkey[32] & 1) != 0 {
        let last = out[31];
        out[31] = last | 0x80;
    }
    proof {
        assert(out@ =~= compressed_key(pubkey@));
    }
    out
}

} // verus!
