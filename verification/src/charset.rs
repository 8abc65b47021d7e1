//! The character classes of armored text.

use vstd::prelude::*;

verus! {

/// The character that ends the opening token, the payload and the closing
/// token.
pub const DELIMITER: char = '.';

/// The characters that carry no meaning inside armored text: `>`, line feed,
/// carriage return, tab and space.
pub open spec fn is_whitespace(c: char) -> bool {
    c == '>' || c == '\n' || c == '\r' || c == '\t' || c == ' '
}

/// The ASCII letters and digits, of which a format name is made.
pub open spec fn is_alphanumeric(c: char) -> bool {
    ('0' <= c && c <= '9') || ('A' <= c && c <= 'Z') || ('a' <= c && c <= 'z')
}

/// The 58 symbols of the Bitcoin alphabet: the ASCII letters and digits
/// without `0`, `O`, `I` and `l`.
pub open spec fn is_base58_char(c: char) -> bool {
    is_alphanumeric(c) && c != '0' && c != 'O' && c != 'I' && c != 'l'
}

/// Every character of `s` is insignificant.
pub open spec fn all_whitespace(s: Seq<char>) -> bool {
    forall|i: int| 0 <= i < s.len() ==> is_whitespace(#[trigger] s[i])
}

/// Every character of `s` is an ASCII letter or digit.
pub open spec fn all_alphanumeric(s: Seq<char>) -> bool {
    forall|i: int| 0 <= i < s.len() ==> is_alphanumeric(#[trigger] s[i])
}

/// Every character of `s` is a Base58 symbol.
pub open spec fn all_base58(s: Seq<char>) -> bool {
    forall|i: int| 0 <= i < s.len() ==> is_base58_char(#[trigger] s[i])
}

/// No character of `s` is insignificant.
pub open spec fn no_whitespace(s: Seq<char>) -> bool {
    forall|i: int| 0 <= i < s.len() ==> !is_whitespace(#[trigger] s[i])
}

/// No character of `s` is the delimiter.
pub open spec fn no_delimiter(s: Seq<char>) -> bool {
    forall|i: int| 0 <= i < s.len() ==> #[trigger] s[i] != DELIMITER
}

/// Tells whether `c` is one of the insignificant characters.
pub fn is_whitespace_char(c: char) -> (r: bool)
    ensures
        r == is_whitespace(c),
{
    c == '>' || c == '\n' || c == '\r' || c == '\t' || c == ' '
}

/// Tells whether `c` is an ASCII letter or digit.
pub fn is_alphanumeric_char(c: char) -> (r: bool)
    ensures
        r == is_alphanumeric(c),
{
    ('0' <= c && c <= '9') || ('A' <= c && c <= 'Z') || ('a' <= c && c <= 'z')
}

/// A Base58 text holds neither an insignificant character nor a delimiter,
/// so wrapping and framing it never change what it says.
pub proof fn lemma_base58_is_plain(s: Seq<char>)
    requires
        all_base58(s),
    ensures
        no_whitespace(s),
        no_delimiter(s),
        all_alphanumeric(s),
{
}

} // verus!
