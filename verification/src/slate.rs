//! Armoring a slate: the JSON text of a transaction record, which is
//! minified before it is armored and handed back as text when it is read.

use crate::codec::{armor, armored, dearmored, remove_armor};
use crate::error::ArmorError;
use crate::grammar::FrameVariant;
use vstd::prelude::*;
use vstd::utf8::{
    decode_utf8, encode_utf8, encode_utf8_decode_utf8, encode_utf8_valid_utf8, valid_utf8,
};

verus! {

/// The JSON text `json` as `minify` leaves it: without ASCII control
/// characters and without white space outside of its strings.
pub uninterp spec fn minified_json(json: Seq<char>) -> Seq<char>;

/// `minify::json::minify`. The contract names what it returns.
#[verifier::external_body]
fn minify_json(json: &str) -> (minified: String)
    ensures
        minified@ == minified_json(json@),
{
    minify::json::minify(json)
}

/// `std::string::FromUtf8Error`: the error of `String::from_utf8`. It is
/// handed on unread.
#[verifier::external_type_specification]
#[verifier::external_body]
pub struct ExFromUtf8Error(std::string::FromUtf8Error);

/// `String::from_utf8` of the standard library: it answers with the text
/// that the bytes encode where they are valid UTF-8, and with an error
/// where they are not.
#[verifier::external_body]
fn string_from_utf8(bytes: Vec<u8>) -> (r: Result<String, std::string::FromUtf8Error>)
    ensures
        match r {
            Ok(text) => valid_utf8(bytes@) && text@ == decode_utf8(bytes@),
            Err(_) => !valid_utf8(bytes@),
        },
{
    String::from_utf8(bytes)
}

/// The text that the bytes of a payload encode, where they encode one.
pub open spec fn payload_text(payload: Seq<u8>) -> Result<Seq<char>, ArmorError> {
    if valid_utf8(payload) {
        Ok(decode_utf8(payload))
    } else {
        Err(ArmorError::TextEncodingError)
    }
}

/// The armored text of the slate `slate`: that of the UTF-8 bytes of its
/// minified text, in the qualified form.
pub open spec fn armored_slate(slate: Seq<char>) -> Seq<char> {
    armored(encode_utf8(minified_json(slate)), FrameVariant::Qualified)
}

/// The slate that `text` carries, or why it carries none.
pub open spec fn dearmored_slate(text: Seq<char>) -> Result<Seq<char>, ArmorError> {
    match dearmored(text) {
        Err(e) => Err(e),
        Ok(payload) => payload_text(payload),
    }
}

/// Reads a payload as text. Fails with `TextEncodingError` where the bytes
/// are not valid UTF-8.
pub fn slate_of_payload(payload: Vec<u8>) -> (r: Result<String, ArmorError>)
    ensures
        match r {
            Ok(slate) => payload_text(payload@) == Ok::<Seq<char>, ArmorError>(slate@),
            Err(e) => payload_text(payload@) == Err::<Seq<char>, ArmorError>(e),
        },
{
    match string_from_utf8(payload) {
        Ok(slate) => Ok(slate),
        Err(_) => Err(ArmorError::TextEncodingError),
    }
}

/// Minifies the JSON text `slate` and armors it. Reading the result as a
/// slate gives the minified text back.
pub fn armor_slate(slate: &str) -> (r: String)
    ensures
        r@ == armored_slate(slate@),
        dearmored_slate(r@) == Ok::<Seq<char>, ArmorError>(minified_json(slate@)),
{
    let minified_slate = minify_json(slate);
    proof {
        encode_utf8_valid_utf8(minified_slate@);
        encode_utf8_decode_utf8(minified_slate@);
    }
    armor(minified_slate.as_str().as_bytes())
}

/// Reads the slate out of the armored text `armor`. Fails as `remove_armor`
/// does, and with `TextEncodingError` where the payload is not valid UTF-8.
pub fn remove_armor_slate(armor: &str) -> (r: Result<String, ArmorError>)
    ensures
        match r {
            Ok(slate) => dearmored_slate(armor@) == Ok::<Seq<char>, ArmorError>(slate@),
            Err(e) => dearmored_slate(armor@) == Err::<Seq<char>, ArmorError>(e),
        },
{
    let slate_bytes = remove_armor(armor)?;
    slate_of_payload(slate_bytes)
}

} // verus!
