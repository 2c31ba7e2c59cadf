use vstd::prelude::*;
use sha3::Digest;

verus! {

/// The Keccak-256 digest of a byte string. Named, not written out: the
/// computation is delegated to the sha3 crate and depends on the input alone.
pub uninterp spec fn keccak_of(data: Seq<u8>) -> Seq<u8>;

/// Relies on sha3::Keccak256 (new/update/finalize): the returned digest is a
/// pure function of the input bytes and is exactly 32 bytes long.
#[verifier::external_body]
pub(crate) fn keccak256(data: &Vec<u8>) -> (r: Vec<u8>)
    ensures
        r@ == keccak_of(data@),
        r@.len() == 32,
{
    let mut hasher = sha3::Keccak256::new();
    hasher.update(data.as_slice());
    let digest = hasher.finalize();
    digest.to_vec()
}

} // verus!
