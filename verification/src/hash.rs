//! SHA3-256 hashing with domain separation, and small byte helpers.

use sha3::Digest;
use vstd::prelude::*;

verus! {

/// The SHA3-256 digest of a byte string, as the `sha3` crate computes it.
pub uninterp spec fn sha3_256(data: Seq<u8>) -> [u8; 32];

/// Calls `sha3::Sha3_256::digest` (the `Digest::digest` one-shot function) on
/// `data`. The contract only names the digest: it is a function of the input
/// bytes alone, and always 32 bytes long.
#[verifier::external_body]
pub(crate) fn sha3_digest(data: &[u8]) -> (out: [u8; 32])
    ensures
        out == sha3_256(data@),
{
    sha3::Sha3_256::digest(data).into()
}

/// The hash of `payload` under the domain named by `label`: the digest of the
/// label's own digest followed by the payload.
pub open spec fn tagged_hash(label: Seq<u8>, payload: Seq<u8>) -> Seq<u8> {
    sha3_256(sha3_256(label)@ + payload)@
}

/// Two distinct byte strings with one digest.
pub open spec fn is_collision(a: Seq<u8>, b: Seq<u8>) -> bool {
    a != b && sha3_256(a) == sha3_256(b)
}

/// Appends `src` to `buf`.
pub fn append_bytes(buf: &mut Vec<u8>, src: &[u8])
    ensures
        final(buf)@ == old(buf)@ + src@,
{
    let ghost before = buf@;
    let mut i: usize = 0;
    while i < src.len()
        invariant
            i <= src@.len(),
            buf@ == before + src@.subrange(0, i as int),
        decreases src@.len() - i,
    {
        buf.push(src[i]);
        i += 1;
        assert(buf@ =~= before + src@.subrange(0, i as int));
    }
    assert(src@.subrange(0, i as int) =~= src@);
}

/// Computes the domain-separated hash of `payload`.
pub fn hash_tagged(label: &[u8], payload: &[u8]) -> (out: [u8; 32])
    ensures
        out@ == tagged_hash(label@, payload@),
{
    let seed = sha3_digest(label);
    let mut buf: Vec<u8> = Vec::new();
    append_bytes(&mut buf, seed.as_slice());
    append_bytes(&mut buf, payload);
    assert(buf@ =~= sha3_256(label@)@ + payload@);
    sha3_digest(buf.as_slice())
}

/// Whether two 32-byte values hold the same bytes.
pub fn hash_eq(a: &[u8; 32], b: &[u8; 32]) -> (same: bool)
    ensures
        same == (a@ == b@),
{
    let mut i: usize = 0;
    while i < 32
        invariant
            i <= 32,
            forall|j: int| 0 <= j < i ==> a@[j] == b@[j],
        decreases 32 - i,
    {
        if a[i] != b[i] {
            return false;
        }
        i += 1;
    }
    assert(a@ =~= b@);
    true
}

} // verus!
