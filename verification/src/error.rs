//! The ways in which reading armored text can fail.

use vstd::prelude::*;

verus! {

/// Why a text was refused. Every failure is one of these; nothing is
/// recovered from silently and no partial payload is handed out.
#[derive(Clone, Copy, Debug, PartialEq, Eq, Structural)]
pub enum ArmorError {
    /// The text before the first `.` is not an accepted opening token.
    InvalidHeader,
    /// The text after the second `.` is not an accepted closing token.
    InvalidFooter,
    /// The text holds fewer than the two `.` that delimit the payload.
    MalformedArmor,
    /// The payload segment holds a character outside the Base58 alphabet, or
    /// decodes to fewer bytes than a checksum has.
    InvalidEncoding,
    /// The checksum carried in front of the payload is not the payload's.
    ChecksumMismatch,
    /// The payload was asked for as text and is not valid UTF-8.
    TextEncodingError,
}

impl ArmorError {
    /// The sentence that `message` returns for each failure.
    pub open spec fn message_text(self) -> Seq<char> {
        match self {
            ArmorError::InvalidHeader => "Bad armor header"@,
            ArmorError::InvalidFooter => "Bad armor footer"@,
            ArmorError::MalformedArmor => "Bad armor framing- a delimiter is missing"@,
            ArmorError::InvalidEncoding => "Bad slate encoding- not a Base58 payload"@,
            ArmorError::ChecksumMismatch => "Bad slate error code- some data was corrupted"@,
            ArmorError::TextEncodingError => "Bad slate text- the payload is not UTF-8"@,
        }
    }

    /// A short sentence for the person who sees the failure.
    pub fn message(&self) -> (r: &'static str)
        ensures
            r@ == self.message_text(),
    {
        match self {
            ArmorError::InvalidHeader => "Bad armor header",
            ArmorError::InvalidFooter => "Bad armor footer",
            ArmorError::MalformedArmor => "Bad armor framing- a delimiter is missing",
            ArmorError::InvalidEncoding => "Bad slate encoding- not a Base58 payload",
            ArmorError::ChecksumMismatch => "Bad slate error code- some data was corrupted",
            ArmorError::TextEncodingError => "Bad slate text- the payload is not UTF-8",
        }
    }
}

} // verus!
