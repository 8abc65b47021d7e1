//! Armoring a payload into framed text, and reading the payload back.

use crate::base58::{
    base58_decoding, base58check, base58check_decode, base58check_decoding, base58check_encoding,
};
use crate::charset::{all_base58, lemma_base58_is_plain, no_delimiter, DELIMITER};
use crate::checksum::{checksum, error_check};
use crate::error::ArmorError;
use crate::format::{
    format_slate, formatted, lemma_format_idempotent, lemma_formatted_no_delimiter,
    lemma_stripped_blank, lemma_stripped_concat, strip_formatting, stripped,
};
use crate::frame::{
    has_two_delimiters, lemma_malformed_armor, lemma_segments, parse_frame, parsed_frame,
};
use crate::grammar::{
    footer_opening, header_opening, is_footer, is_header, keyword, lemma_frame_token_forms,
    lemma_frame_token_padded, lemma_token_no_delimiter, FrameVariant,
};
use vstd::prelude::*;

verus! {

/// What an armored text begins with.
pub open spec fn header_text(variant: FrameVariant) -> Seq<char> {
    match variant {
        FrameVariant::Qualified => "BEGIN SLATEPACK. "@,
        FrameVariant::Bare => "BEGINSLATEPACK. "@,
    }
}

/// What an armored text ends with.
pub open spec fn footer_text(variant: FrameVariant) -> Seq<char> {
    match variant {
        FrameVariant::Qualified => " . END SLATEPACK."@,
        FrameVariant::Bare => " . ENDSLATEPACK."@,
    }
}

/// The armored text of `payload`: its Base58Check text, wrapped into words,
/// between the opening and the closing of the chosen form.
pub open spec fn armored(payload: Seq<u8>, variant: FrameVariant) -> Seq<char> {
    header_text(variant) + formatted(base58check_encoding(payload)) + footer_text(variant)
}

/// The payload of a decoded text, where the code in front of it is its own.
pub open spec fn checked_payload(decoded: Result<(Seq<u8>, Seq<u8>), ArmorError>) -> Result<
    Seq<u8>,
    ArmorError,
> {
    match decoded {
        Err(e) => Err(e),
        Ok((code, payload)) => if code == checksum(payload) {
            Ok(payload)
        } else {
            Err(ArmorError::ChecksumMismatch)
        },
    }
}

/// The payload that `text` carries, or why it carries none: the text is
/// parted into its segments, the payload segment is stripped of its
/// insignificant characters and decoded, and the code is checked.
pub open spec fn dearmored(text: Seq<char>) -> Result<Seq<u8>, ArmorError> {
    match parsed_frame(text) {
        Err(e) => Err(e),
        Ok(frame) => checked_payload(base58check_decoding(stripped(frame.payload))),
    }
}

/// What the Base58 codec is relied on to do with `payload`: to write its
/// check buffer in Base58 symbols only, and to read the code and the payload
/// back from what it wrote. `base58check` shows it of every payload that it
/// encodes.
pub open spec fn encodes_faithfully(payload: Seq<u8>) -> bool {
    &&& all_base58(base58check_encoding(payload))
    &&& base58check_decoding(base58check_encoding(payload)) == Ok::<
        (Seq<u8>, Seq<u8>),
        ArmorError,
    >((checksum(payload), payload))
}

/// The opening and the closing of either form are a token, a delimiter and
/// a space; the closing has a space and a delimiter in front.
proof fn lemma_framing_texts(variant: FrameVariant) -> (tokens: (Seq<char>, Seq<char>))
    ensures
        is_header(tokens.0),
        is_footer(tokens.1),
        header_text(variant) == tokens.0.push(DELIMITER).push(' '),
        footer_text(variant) == seq![' ', DELIMITER] + tokens.1.push(DELIMITER),
{
    reveal_strlit("BEGIN SLATEPACK. ");
    reveal_strlit("BEGINSLATEPACK. ");
    reveal_strlit(" . END SLATEPACK.");
    reveal_strlit(" . ENDSLATEPACK.");
    reveal_strlit("SLATEPACK");
    reveal_strlit("BEGIN");
    reveal_strlit("END");
    let space = seq![' '];
    let none = Seq::<char>::empty();
    lemma_frame_token_forms(header_opening(), space, keyword(), space);
    lemma_frame_token_forms(footer_opening(), space, keyword(), space);
    let (header, end) = match variant {
        FrameVariant::Qualified => (
            header_opening() + space + keyword(),
            footer_opening() + space + keyword(),
        ),
        FrameVariant::Bare => (header_opening() + keyword(), footer_opening() + keyword()),
    };
    lemma_frame_token_padded(end, footer_opening(), space, none);
    (header, space + end + none)
}

/// Reading an armored text gives the payload that was armored, in either
/// form and for every payload, the empty one too.
pub proof fn lemma_round_trip(payload: Seq<u8>, variant: FrameVariant)
    requires
        encodes_faithfully(payload),
    ensures
        dearmored(armored(payload, variant)) == Ok::<Seq<u8>, ArmorError>(payload),
{
    let encoded = base58check_encoding(payload);
    let body = formatted(encoded);
    let tokens = lemma_framing_texts(variant);
    let header = tokens.0;
    let footer = tokens.1;
    let space = seq![' '];
    let segment = space + body + space;
    let text = armored(payload, variant);

    lemma_base58_is_plain(encoded);
    lemma_formatted_no_delimiter(encoded);
    lemma_token_no_delimiter(header);
    lemma_token_no_delimiter(footer);
    assert(text =~= header.push(DELIMITER) + segment.push(DELIMITER) + footer.push(DELIMITER)
        + Seq::<char>::empty());
    lemma_segments(header, segment, footer, Seq::<char>::empty());

    lemma_stripped_concat(space + body, space);
    lemma_stripped_concat(space, body);
    lemma_stripped_blank(space);
    lemma_format_idempotent(encoded);
}

/// Damage that stays inside the payload segment, and brings no delimiter
/// into it, is met by the codec or by the code: the text is refused with
/// `InvalidEncoding` or `ChecksumMismatch`, and where it is read all the
/// same, the payload handed out is one whose own code stood in front of it.
pub proof fn lemma_damaged_segment(
    header: Seq<char>,
    segment: Seq<char>,
    footer: Seq<char>,
    rest: Seq<char>,
)
    requires
        is_header(header),
        is_footer(footer),
        no_delimiter(segment),
    ensures
        match dearmored(
            header.push(DELIMITER) + segment.push(DELIMITER) + footer.push(DELIMITER) + rest,
        ) {
            Ok(payload) => base58check_decoding(stripped(segment)) == Ok::<
                (Seq<u8>, Seq<u8>),
                ArmorError,
            >((checksum(payload), payload)),
            Err(e) => e == ArmorError::InvalidEncoding || e == ArmorError::ChecksumMismatch,
        },
{
    lemma_token_no_delimiter(header);
    lemma_token_no_delimiter(footer);
    lemma_segments(header, segment, footer, rest);
}

/// A text is refused as malformed exactly when it has fewer than two
/// delimiters; no other fault is reported of such a text.
pub proof fn lemma_too_few_delimiters(text: Seq<char>)
    ensures
        dearmored(text) == Err::<Seq<u8>, ArmorError>(ArmorError::MalformedArmor)
            <==> !has_two_delimiters(text),
{
    lemma_malformed_armor(text);
}

/// Armors `payload` in the qualified form, the one for new text. Reading
/// the result gives `payload` back.
pub fn armor(payload: &[u8]) -> (r: String)
    ensures
        r@ == armored(payload@, FrameVariant::Qualified),
        dearmored(r@) == Ok::<Seq<u8>, ArmorError>(payload@),
{
    armor_as(payload, FrameVariant::Qualified)
}

/// Armors `payload` in the form `variant`. Reading the result gives
/// `payload` back.
pub fn armor_as(payload: &[u8], variant: FrameVariant) -> (r: String)
    ensures
        r@ == armored(payload@, variant),
        dearmored(r@) == Ok::<Seq<u8>, ArmorError>(payload@),
{
    let encoded_slate = base58check(payload);
    let formatted_slate = format_slate(encoded_slate.as_str());
    let mut out: String = match variant {
        FrameVariant::Qualified => String::from_str("BEGIN SLATEPACK. "),
        FrameVariant::Bare => String::from_str("BEGINSLATEPACK. "),
    };
    out.append(formatted_slate.as_str());
    match variant {
        FrameVariant::Qualified => out.append(" . END SLATEPACK."),
        FrameVariant::Bare => out.append(" . ENDSLATEPACK."),
    }
    proof {
        lemma_round_trip(payload@, variant);
    }
    out
}

/// Reads the payload out of the armored text `armor`.
///
/// Fails with `MalformedArmor` where the text has fewer than two
/// delimiters, with `InvalidHeader` or `InvalidFooter` where a token is not
/// accepted, with `InvalidEncoding` where the payload segment, stripped of
/// its insignificant characters, is no Base58 text of four bytes or more, and
/// with `ChecksumMismatch` where the code in front is not the payload's own.
pub fn remove_armor(armor: &str) -> (r: Result<Vec<u8>, ArmorError>)
    ensures
        match r {
            Ok(payload) => dearmored(armor@) == Ok::<Seq<u8>, ArmorError>(payload@),
            Err(e) => dearmored(armor@) == Err::<Seq<u8>, ArmorError>(e),
        },
        parsed_frame(armor@) matches Ok(frame) ==> (base58_decoding(stripped(frame.payload))
            is Some <==> all_base58(stripped(frame.payload))),
{
    let frame = parse_frame(armor)?;
    let clean_payload = strip_formatting(frame.payload.as_str());
    let (error_code, slate_bytes) = base58check_decode(clean_payload.as_str())?;
    error_check(&error_code, &slate_bytes)?;
    Ok(slate_bytes)
}

} // verus!
