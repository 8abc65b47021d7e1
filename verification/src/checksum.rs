//! The four-byte error check code that travels in front of a payload.

use crate::error::ArmorError;
use sha2::{Digest, Sha256};
use vstd::prelude::*;
use vstd::slice::{slice_subrange, slice_to_vec};

verus! {

/// The number of bytes in an error check code.
pub const CHECKSUM_LEN: usize = 4;

/// The SHA-256 digest of `data`, as `sha2` computes it.
pub uninterp spec fn sha256_digest(data: Seq<u8>) -> Seq<u8>;

/// `Sha256::digest` of the `sha2` crate. The contract names the digest and
/// claims its length, 32 bytes, which is the output size of SHA-256.
#[verifier::external_body]
fn sha256(data: &[u8]) -> (digest: Vec<u8>)
    ensures
        digest@ == sha256_digest(data@),
        digest@.len() == 32,
{
    Sha256::digest(data).to_vec()
}

/// The error check code of `payload`: the first four bytes of the SHA-256
/// digest of the SHA-256 digest of `payload`. A code has four bytes by the
/// way it is made.
pub open spec fn checksum(payload: Seq<u8>) -> Seq<u8> {
    let digest = sha256_digest(sha256_digest(payload));
    Seq::new(CHECKSUM_LEN as nat, |i: int| digest[i])
}

/// Computes the error check code of `payload`.
pub fn generate_check(payload: &Vec<u8>) -> (check_bytes: Vec<u8>)
    ensures
        check_bytes@ == checksum(payload@),
        check_bytes@.len() == CHECKSUM_LEN,
{
    let first_hash = sha256(payload.as_slice());
    let second_hash = sha256(first_hash.as_slice());
    slice_to_vec(slice_subrange(second_hash.as_slice(), 0, CHECKSUM_LEN))
}

/// Compares the code that came with a payload with the code computed from
/// it: they have to be the same sequence of bytes.
pub fn compare_check(error_code: &Vec<u8>, new_check: &Vec<u8>) -> (r: Result<(), ArmorError>)
    ensures
        r == if error_code@ == new_check@ {
            Ok::<(), ArmorError>(())
        } else {
            Err::<(), ArmorError>(ArmorError::ChecksumMismatch)
        },
{
    if error_code.len() != new_check.len() {
        return Err(ArmorError::ChecksumMismatch);
    }
    let mut i: usize = 0;
    while i < error_code.len()
        invariant
            i <= error_code.len(),
            error_code.len() == new_check.len(),
            error_code@.take(i as int) == new_check@.take(i as int),
        decreases error_code.len() - i,
    {
        if error_code[i] != new_check[i] {
            return Err(ArmorError::ChecksumMismatch);
        }
        i += 1;
    }
    assert(error_code@.take(i as int) == error_code@);
    assert(new_check@.take(i as int) == new_check@);
    Ok(())
}

/// Verifies that `error_code` is the error check code of `slate_bytes`.
pub fn error_check(error_code: &Vec<u8>, slate_bytes: &Vec<u8>) -> (r: Result<(), ArmorError>)
    ensures
        r == if error_code@ == checksum(slate_bytes@) {
            Ok::<(), ArmorError>(())
        } else {
            Err::<(), ArmorError>(ArmorError::ChecksumMismatch)
        },
{
    let new_check = generate_check(slate_bytes);
    compare_check(error_code, &new_check)
}

} // verus!
