use vstd::prelude::*;

use crate::session::NUM_CHAMBERS;

verus! {

/// The SHA-256 digest of a byte sequence. The digest is computed by an
/// outside crate and only named here: it is a function of the input bytes
/// alone, so the name is all the contracts need.
pub uninterp spec fn sha256_of(data: Seq<u8>) -> Seq<u8>;

/// Relies on sha2::Sha256::digest: the 32-byte SHA-256 digest of the input,
/// determined by the input bytes alone.
#[verifier::external_body]
pub(crate) fn sha256(data: &Vec<u8>) -> (r: [u8; 32])
    ensures
        r@ == sha256_of(data@),
{
    let digest = <sha2::Sha256 as sha2::Digest>::digest(data.as_slice());
    digest.into()
}

/// The four bytes of `x`, most significant first.
pub open spec fn be_bytes_u32(x: u32) -> Seq<u8> {
    seq![
        (x / 0x100_0000) as u8,
        ((x / 0x1_0000) % 0x100) as u8,
        ((x / 0x100) % 0x100) as u8,
        (x % 0x100) as u8,
    ]
}

/// Append the big-endian bytes of `x` to `out`.
pub(crate) fn push_be_bytes(out: &mut Vec<u8>, x: u32)
    ensures
        final(out)@ == old(out)@ + be_bytes_u32(x),
{
    out.push((x / 0x100_0000) as u8);
    out.push(((x / 0x1_0000) % 0x100) as u8);
    out.push(((x / 0x100) % 0x100) as u8);
    out.push((x % 0x100) as u8);
    proof {
        assert(out@ =~= old(out)@ + be_bytes_u32(x));
    }
}

/// The chamber the cylinder auto-reloads to after a non-final elimination:
/// the first byte of SHA-256(session_id ‖ shots_fired), both counters
/// big-endian encoded, reduced modulo the chamber count. Deterministic and
/// predictable by any observer; not a security primitive.
pub open spec fn reload_position(session_id: u32, shots_fired: u32) -> u32 {
    (sha256_of(be_bytes_u32(session_id) + be_bytes_u32(shots_fired))[0] as u32) % NUM_CHAMBERS
}

/// Compute the auto-reload chamber for the given session and shot counter.
pub(crate) fn derive_bullet_position(session_id: u32, shots_fired: u32) -> (r: u32)
    ensures
        r == reload_position(session_id, shots_fired),
        r < NUM_CHAMBERS,
{
    let mut seed: Vec<u8> = Vec::new();
    push_be_bytes(&mut seed, session_id);
    push_be_bytes(&mut seed, shots_fired);
    proof {
        assert(seed@ =~= be_bytes_u32(session_id) + be_bytes_u32(shots_fired));
    }
    let h = sha256(&seed);
    (h[0] as u32) % NUM_CHAMBERS
}

/// Commitment binding a salt and a bullet position:
/// SHA-256(salt ‖ position byte).
pub open spec fn commitment_of(salt: Seq<u8>, position: u32) -> Seq<u8> {
    sha256_of(salt + seq![(position % 0x100) as u8])
}

/// Compute the commitment to `position` under `salt`.
pub(crate) fn commitment_bytes(salt: &[u8; 32], position: u32) -> (r: [u8; 32])
    ensures
        r@ == commitment_of(salt@, position),
{
    let mut preimage: Vec<u8> = Vec::new();
    let mut i: usize = 0;
    while i < 32
        invariant
            i <= 32,
            preimage@ == salt@.take(i as int),
        decreases 32 - i,
    {
        preimage.push(salt[i]);
        proof {
            assert(preimage@ =~= salt@.take(i + 1 as int));
        }
        i = i + 1;
    }
    preimage.push((position % 0x100) as u8);
    proof {
        assert(salt@.take(32) =~= salt@);
        assert(preimage@ =~= salt@ + seq![(position % 0x100) as u8]);
    }
    sha256(&preimage)
}

} // verus!
