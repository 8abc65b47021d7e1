//! Base58Check: a payload with its error check code in front, written in
//! the Base58 alphabet.

use crate::charset::all_base58;
use crate::checksum::{checksum, generate_check, CHECKSUM_LEN};
use crate::error::ArmorError;
use vstd::prelude::*;
use vstd::slice::{slice_subrange, slice_to_vec};

verus! {

/// The Base58 text of `data`, as `bs58` writes it in its default alphabet.
pub uninterp spec fn base58_encoding(data: Seq<u8>) -> Seq<char>;

/// The bytes that `bs58` reads from `text` in its default alphabet, or
/// `None` where it refuses the text.
pub uninterp spec fn base58_decoding(text: Seq<char>) -> Option<Seq<u8>>;

/// `bs58::decode::Error`: why `bs58` refused a text. It is handed on unread.
#[verifier::external_type_specification]
#[verifier::external_body]
pub struct ExBase58DecodeError(bs58::decode::Error);

/// `bs58::encode(..).into_string()`. Besides naming the text, the contract
/// claims two things of `bs58`: the text is written in the default (Bitcoin)
/// alphabet, and decoding it gives `data` back.
#[verifier::external_body]
fn base58_encode(data: &[u8]) -> (text: String)
    ensures
        text@ == base58_encoding(data@),
        all_base58(text@),
        base58_decoding(text@) == Some(data@),
{
    bs58::encode(data).into_string()
}

/// `bs58::decode(..).into_vec()`. Besides naming the bytes, the contract
/// claims when `bs58` answers: it refuses a text exactly when one of its
/// characters is outside the default (Bitcoin) alphabet; the vector it
/// decodes into is always large enough.
#[verifier::external_body]
fn base58_decode(text: &str) -> (r: Result<Vec<u8>, bs58::decode::Error>)
    ensures
        match r {
            Ok(bytes) => base58_decoding(text@) == Some(bytes@),
            Err(_) => base58_decoding(text@) is None,
        },
        r is Ok <==> all_base58(text@),
{
    bs58::decode(text).into_vec()
}

/// What is encoded: the error check code of `payload`, then `payload`.
pub open spec fn check_buffer(payload: Seq<u8>) -> Seq<u8> {
    checksum(payload) + payload
}

/// The Base58Check text of `payload`.
pub open spec fn base58check_encoding(payload: Seq<u8>) -> Seq<char> {
    base58_encoding(check_buffer(payload))
}

/// A decoded buffer parted into the code in front and the payload behind
/// it. A buffer too short to hold a code is no encoding of anything.
pub open spec fn split_buffer(buffer: Seq<u8>) -> Result<(Seq<u8>, Seq<u8>), ArmorError> {
    if buffer.len() < CHECKSUM_LEN {
        Err(ArmorError::InvalidEncoding)
    } else {
        Ok((buffer.take(CHECKSUM_LEN as int), buffer.skip(CHECKSUM_LEN as int)))
    }
}

/// The code and the payload that a Base58Check text carries. Whether the
/// code is the payload's own is not asked here.
pub open spec fn base58check_decoding(encoded: Seq<char>) -> Result<
    (Seq<u8>, Seq<u8>),
    ArmorError,
> {
    match base58_decoding(encoded) {
        None => Err(ArmorError::InvalidEncoding),
        Some(buffer) => split_buffer(buffer),
    }
}

/// A check buffer splits into the code and the payload it was made of.
pub proof fn lemma_split_check_buffer(payload: Seq<u8>)
    ensures
        split_buffer(check_buffer(payload)) == Ok::<(Seq<u8>, Seq<u8>), ArmorError>(
            (checksum(payload), payload),
        ),
{
    let buffer = check_buffer(payload);
    assert(buffer.take(CHECKSUM_LEN as int) =~= checksum(payload));
    assert(buffer.skip(CHECKSUM_LEN as int) =~= payload);
}

/// Encodes `slate` with its error check code in front. The text holds
/// Base58 symbols only, and decoding it gives the code and `slate` back.
pub fn base58check(slate: &[u8]) -> (b58_slate: String)
    ensures
        b58_slate@ == base58check_encoding(slate@),
        all_base58(b58_slate@),
        base58check_decoding(b58_slate@) == Ok::<(Seq<u8>, Seq<u8>), ArmorError>(
            (checksum(slate@), slate@),
        ),
{
    let mut slate_bytes: Vec<u8> = slice_to_vec(slate);
    let mut check_bytes: Vec<u8> = generate_check(&slate_bytes);
    let mut slate_buf: Vec<u8> = Vec::new();
    slate_buf.append(&mut check_bytes);
    slate_buf.append(&mut slate_bytes);
    proof {
        lemma_split_check_buffer(slate@);
    }
    base58_encode(slate_buf.as_slice())
}

/// Parts a decoded buffer into the code and the payload.
pub fn split_check_buffer(buffer: &Vec<u8>) -> (r: Result<(Vec<u8>, Vec<u8>), ArmorError>)
    ensures
        match r {
            Ok((code, payload)) => split_buffer(buffer@) == Ok::<(Seq<u8>, Seq<u8>), ArmorError>(
                (code@, payload@),
            ),
            Err(e) => split_buffer(buffer@) == Err::<(Seq<u8>, Seq<u8>), ArmorError>(e),
        },
{
    if buffer.len() < CHECKSUM_LEN {
        return Err(ArmorError::InvalidEncoding);
    }
    let code = slice_to_vec(slice_subrange(buffer.as_slice(), 0, CHECKSUM_LEN));
    let payload = slice_to_vec(slice_subrange(buffer.as_slice(), CHECKSUM_LEN, buffer.len()));
    Ok((code, payload))
}

/// Decodes a Base58Check text into the code and the payload it carries.
/// Fails with `InvalidEncoding` where a character is outside the Base58
/// alphabet or the text decodes to fewer than four bytes. The codec reads
/// `encoded` exactly when all its characters are Base58 symbols.
pub fn base58check_decode(encoded: &str) -> (r: Result<(Vec<u8>, Vec<u8>), ArmorError>)
    ensures
        match r {
            Ok((code, payload)) => base58check_decoding(encoded@) == Ok::<
                (Seq<u8>, Seq<u8>),
                ArmorError,
            >((code@, payload@)),
            Err(e) => base58check_decoding(encoded@) == Err::<(Seq<u8>, Seq<u8>), ArmorError>(e),
        },
        base58_decoding(encoded@) is Some <==> all_base58(encoded@),
{
    match base58_decode(encoded) {
        Ok(buffer) => split_check_buffer(&buffer),
        Err(_) => Err(ArmorError::InvalidEncoding),
    }
}

} // verus!
