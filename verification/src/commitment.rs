//! The batch commitment: a 32-byte state root standing in for the TEE's real
//! decrypt-and-compute step, derived from the batch id and the number of
//! inputs alone — deterministic and, by construction, insensitive to the
//! order of the inputs.

use vstd::prelude::*;

use crate::hashing::{sha256, sha256_of};

verus! {

/// The eight bytes of `x`, least significant first.
pub open spec fn u64_le_seq(x: u64) -> Seq<u8> {
    Seq::new(8, |i: int| ((x >> ((8 * i) as u64)) & 0xff) as u8)
}

/// The sixteen leading bytes of a commitment: batch id, then input count.
pub open spec fn commitment_prefix(batch_id: u64, input_count: u64) -> Seq<u8> {
    u64_le_seq(batch_id) + u64_le_seq(input_count)
}

/// The 32-byte state root: batch id, input count, the first eight digest
/// bytes of that prefix, and zero padding.
pub open spec fn state_root_spec(batch_id: u64, input_count: u64) -> Seq<u8> {
    commitment_prefix(batch_id, input_count) + sha256_of(
        commitment_prefix(batch_id, input_count),
    ).take(8) + Seq::new(8, |i: int| 0u8)
}

/// The eight bytes of `x` in little-endian order.
pub fn u64_le_bytes(x: u64) -> (r: Vec<u8>)
    ensures
        r@ =~= u64_le_seq(x),
{
    let mut r: Vec<u8> = Vec::new();
    let mut i: usize = 0;
    #[verifier::loop_isolation(false)]
    while i < 8
        invariant
            0 <= i <= 8,
            r@.len() == i,
            forall|j: int| 0 <= j < i ==> r@[j] == u64_le_seq(x)[j],
        decreases 8 - i,
    {
        let b = ((x >> (8 * i as u64)) & 0xff) as u8;
        r.push(b);
        i += 1;
    }
    r
}

/// Compute the 32-byte state root for a batch with `input_count` inputs.
pub fn compute_state_root(batch_id: u64, input_count: u64) -> (r: Vec<u8>)
    ensures
        r@ == state_root_spec(batch_id, input_count),
        r@.len() == 32,
{
    let ghost p = commitment_prefix(batch_id, input_count);
    let mut r = u64_le_bytes(batch_id);
    let mut count_bytes = u64_le_bytes(input_count);
    r.append(&mut count_bytes);
    assert(r@ =~= p);
    let digest = sha256(r.as_slice());
    let mut k: usize = 0;
    #[verifier::loop_isolation(false)]
    while k < 8
        invariant
            0 <= k <= 8,
            r@.len() == 16 + k,
            forall|j: int| 0 <= j < 16 ==> r@[j] == p[j],
            forall|j: int| 0 <= j < k ==> #[trigger] r@[16 + j] == digest@[j],
            digest@ == sha256_of(p),
            digest@.len() == 32,
        decreases 8 - k,
    {
        r.push(digest[k]);
        k += 1;
    }
    let mut z: usize = 0;
    #[verifier::loop_isolation(false)]
    while z < 8
        invariant
            0 <= z <= 8,
            r@.len() == 24 + z,
            forall|j: int| 0 <= j < 16 ==> r@[j] == p[j],
            forall|j: int| 0 <= j < 8 ==> #[trigger] r@[16 + j] == digest@[j],
            forall|j: int| 0 <= j < z ==> #[trigger] r@[24 + j] == 0u8,
            digest@ == sha256_of(p),
            digest@.len() == 32,
        decreases 8 - z,
    {
        r.push(0u8);
        z += 1;
    }
    proof {
        let spec_root = state_root_spec(batch_id, input_count);
        assert(sha256_of(p).take(8).len() == 8);
        assert forall|i: int| 0 <= i < 32 implies r@[i] == spec_root[i] by {
            if i < 16 {
                assert(spec_root[i] == p[i]);
            } else if i < 24 {
                assert(spec_root[i] == sha256_of(p).take(8)[i - 16]);
                assert(sha256_of(p).take(8)[i - 16] == digest@[i - 16]);
                assert(r@[16 + (i - 16)] == digest@[i - 16]);
            } else {
                assert(spec_root[i] == Seq::new(8, |j: int| 0u8)[i - 24]);
                assert(r@[24 + (i - 24)] == 0u8);
            }
        }
        assert(r@ =~= spec_root);
    }
    r
}

} // verus!
